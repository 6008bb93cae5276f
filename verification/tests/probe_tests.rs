use proxyns::errors::Error;
use proxyns::namespaces::{namespace_info, parse_namespace_list};
use proxyns::probe::{ping, port};

#[test]
fn ping_extracts_the_average_from_the_summary() {
    let output = "PING 203.0.113.7 56(84) bytes of data.\n\
                  64 bytes from 203.0.113.7: icmp_seq=1 ttl=54 time=15.5 ms\n\
                  \n\
                  --- 203.0.113.7 ping statistics ---\n\
                  rtt min/avg/max/mdev = 10.0/15.5/20.0/2.0 ms\n";
    assert_eq!(ping(output).expect("summary present"), "15.5");
}

#[test]
fn ping_treats_a_zero_average_as_unreachable() {
    let output = "rtt min/avg/max/mdev = 0.0/0.0/0.0/0.0 ms\n";
    assert!(matches!(ping(output), Err(Error::HostUnreachable)));
}

#[test]
fn ping_treats_a_missing_summary_as_unreachable() {
    assert!(matches!(ping("no summary here\n"), Err(Error::HostUnreachable)));
    assert!(matches!(ping(""), Err(Error::HostUnreachable)));
}

#[test]
fn ping_treats_a_malformed_summary_as_unreachable() {
    assert!(matches!(ping("rtt min/avg/max/mdev = broken\n"), Err(Error::HostUnreachable)));
    assert!(matches!(ping("rtt min/avg/max/mdev =\n"), Err(Error::HostUnreachable)));
}

#[test]
fn port_reports_the_last_three_tokens() {
    let output = "Connection to 203.0.113.7 1080 port [tcp/socks] succeeded!\n";
    assert_eq!(port(output), "port [tcp/socks] succeeded!");
}

#[test]
fn port_reports_short_output_trimmed() {
    assert_eq!(port("  open \n"), "open");
    assert_eq!(port("closed now"), "closed now");
}

#[test]
fn namespace_listing_drops_blank_lines() {
    let names = parse_namespace_list(" ns_alpha\nns_beta\n\nns_gamma\n");
    assert_eq!(
        names,
        vec!["ns_alpha".to_string(), "ns_beta".to_string(), "ns_gamma".to_string()]
    );
    assert!(parse_namespace_list("\n\n").is_empty());
    assert!(parse_namespace_list("").is_empty());
}

#[test]
fn namespace_info_trims_the_process_listing() {
    let info = namespace_info("ns_alpha", "  123 tun2socks\n456 curl\n");
    assert_eq!(info.name, "ns_alpha");
    assert_eq!(info.processes, "123 tun2socks\n456 curl");
}
