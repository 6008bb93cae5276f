use proxyns::{Profile, Protocol};
use proxyns::dispatch::{launch_invocation, parse_protocol, setup_invocation};
use proxyns::errors::Error;

fn profile_with_protocol(protocol: &str) -> Profile {
    Profile {
        ip: "198.51.100.4".to_string(),
        port: "9050".to_string(),
        protocol: protocol.to_string(),
        namespace: "isolated".to_string(),
        username: "user1".to_string(),
        password: "pw1".to_string(),
        tun_interface: "tun0".to_string(),
        tun_ip: "10.0.0.2".to_string(),
        veth_host: "veth_host".to_string(),
        veth_ns: "veth_ns".to_string(),
        veth_host_ip: "10.200.1.1".to_string(),
        veth_ns_ip: "10.200.1.2".to_string(),
        dns: "8.8.8.8".to_string(),
    }
}

#[test]
fn unrecognized_protocol_is_rejected_without_any_invocation() {
    let r = launch_invocation(&profile_with_protocol("vpn9"));
    match r {
        Err(Error::UnsupportedProtocol(m)) => {
            assert_eq!(m, "Unsupported protocol: vpn9");
        },
        _ => panic!("an unknown protocol tag must be rejected"),
    }
}

#[test]
fn parse_protocol_covers_the_table() {
    assert!(matches!(parse_protocol("socks5"), Some(Protocol::Socks5)));
    assert!(matches!(parse_protocol("socks4"), Some(Protocol::Socks4)));
    assert!(matches!(parse_protocol("http"), Some(Protocol::Http)));
    assert!(matches!(parse_protocol("shadowsocks"), Some(Protocol::Shadowsocks)));
    assert!(matches!(parse_protocol("relay"), Some(Protocol::Relay)));
    assert!(matches!(parse_protocol("direct"), Some(Protocol::Direct)));
    assert!(matches!(parse_protocol("reject"), Some(Protocol::Reject)));
    assert!(parse_protocol("SOCKS5").is_none());
    assert!(parse_protocol("").is_none());
}

#[test]
fn direct_launch_carries_only_namespace_and_tun_interface() {
    let inv = launch_invocation(&profile_with_protocol("direct")).expect("direct is supported");
    assert_eq!(inv.operation, "tun2socks_direct");
    assert_eq!(inv.args, vec!["isolated".to_string(), "tun0".to_string()]);
}

#[test]
fn reject_launch_carries_only_namespace_and_tun_interface() {
    let inv = launch_invocation(&profile_with_protocol("reject")).expect("reject is supported");
    assert_eq!(inv.operation, "tun2socks_reject");
    assert_eq!(inv.args, vec!["isolated".to_string(), "tun0".to_string()]);
}

#[test]
fn socks5_launch_forwards_credentials_in_order() {
    let inv = launch_invocation(&profile_with_protocol("socks5")).expect("socks5 is supported");
    assert_eq!(inv.operation, "tun2socks_socks5");
    assert_eq!(
        inv.args,
        vec![
            "198.51.100.4".to_string(),
            "9050".to_string(),
            "isolated".to_string(),
            "tun0".to_string(),
            "user1".to_string(),
            "pw1".to_string(),
        ]
    );
}

#[test]
fn socks4_launch_forwards_username_only() {
    let inv = launch_invocation(&profile_with_protocol("socks4")).expect("socks4 is supported");
    assert_eq!(inv.operation, "tun2socks_socks4");
    assert_eq!(
        inv.args,
        vec![
            "198.51.100.4".to_string(),
            "9050".to_string(),
            "isolated".to_string(),
            "tun0".to_string(),
            "user1".to_string(),
        ]
    );
}

#[test]
fn http_launch_forwards_no_credentials() {
    let inv = launch_invocation(&profile_with_protocol("http")).expect("http is supported");
    assert_eq!(inv.operation, "tun2socks_http");
    assert_eq!(
        inv.args,
        vec![
            "198.51.100.4".to_string(),
            "9050".to_string(),
            "isolated".to_string(),
            "tun0".to_string(),
        ]
    );
}

#[test]
fn shadowsocks_and_relay_forward_credentials() {
    let ss = launch_invocation(&profile_with_protocol("shadowsocks")).expect("supported");
    assert_eq!(ss.operation, "tun2socks_shadowsocks");
    assert_eq!(ss.args.len(), 6);
    let relay = launch_invocation(&profile_with_protocol("relay")).expect("supported");
    assert_eq!(relay.operation, "tun2socks_relay");
    assert_eq!(relay.args.len(), 6);
}

#[test]
fn setup_invocation_forwards_networking_fields_in_order() {
    let inv = setup_invocation(&profile_with_protocol("socks5"));
    assert_eq!(inv.operation, "setup_namespace");
    assert_eq!(
        inv.args,
        vec![
            "198.51.100.4".to_string(),
            "9050".to_string(),
            "isolated".to_string(),
            "tun0".to_string(),
            "10.0.0.2".to_string(),
            "veth_host".to_string(),
            "veth_ns".to_string(),
            "10.200.1.1".to_string(),
            "10.200.1.2".to_string(),
            "8.8.8.8".to_string(),
        ]
    );
}
