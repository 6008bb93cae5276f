use proxyns::{ExecutionResult, Profile, Session, SessionState};
use proxyns::errors::Error;
use proxyns::session::{decode_pid_record, encode_pid_record, pid_record_file_name};

fn profile_named(namespace: &str, protocol: &str) -> Profile {
    Profile {
        ip: "192.0.2.10".to_string(),
        port: "1080".to_string(),
        protocol: protocol.to_string(),
        namespace: namespace.to_string(),
        username: "u".to_string(),
        password: "p".to_string(),
        tun_interface: "tun0".to_string(),
        tun_ip: "10.0.0.2".to_string(),
        veth_host: "veth_host".to_string(),
        veth_ns: "veth_ns".to_string(),
        veth_host_ip: "10.200.1.1".to_string(),
        veth_ns_ip: "10.200.1.2".to_string(),
        dns: "8.8.8.8".to_string(),
    }
}

fn ok_result(stdout: &str) -> ExecutionResult {
    ExecutionResult { exit_code: 0, stdout: stdout.to_string(), stderr: String::new() }
}

fn failed_result(stderr: &str) -> ExecutionResult {
    ExecutionResult { exit_code: 1, stdout: String::new(), stderr: stderr.to_string() }
}

#[test]
fn setup_walks_the_lifecycle_to_proxy_active() {
    let profile = profile_named("ns_main", "socks5");
    let mut session = Session::new(&profile);
    assert!(matches!(session.state, SessionState::Uninitialized));

    let setup = session.setup_request(&profile);
    assert_eq!(setup.operation, "setup_namespace");
    assert_eq!(setup.args[2], "ns_main");

    let launch = session
        .setup_response(&profile, &ok_result(""))
        .expect("setup success must resolve the launch step");
    assert!(matches!(session.state, SessionState::NamespaceReady));
    assert_eq!(launch.operation, "tun2socks_socks5");

    let record = session
        .launch_response(&ok_result("  4711\n"))
        .expect("launch success must yield a record");
    assert!(matches!(session.state, SessionState::ProxyActive));
    assert_eq!(record.namespace_name, "ns_main");
    assert_eq!(record.tunnel_pid, "4711");
}

#[test]
fn failed_namespace_setup_reports_stderr_and_changes_nothing() {
    let profile = profile_named("ns_fail", "http");
    let mut session = Session::new(&profile);
    let r = session.setup_response(&profile, &failed_result("no permission"));
    match r {
        Err(Error::OperationFailure(m)) => {
            assert_eq!(m, "Failed to setup namespace: no permission");
        },
        _ => panic!("a non-zero setup exit must be an operation failure"),
    }
    assert!(matches!(session.state, SessionState::Uninitialized));
}

#[test]
fn unsupported_protocol_leaves_the_namespace_standing() {
    let profile = profile_named("ns_odd", "vpn9");
    let mut session = Session::new(&profile);
    let r = session.setup_response(&profile, &ok_result(""));
    assert!(matches!(r, Err(Error::UnsupportedProtocol(_))));
    // The namespace-setup step succeeded and is not reversed automatically.
    assert!(matches!(session.state, SessionState::NamespaceReady));
}

#[test]
fn failed_launch_reports_stderr() {
    let profile = profile_named("ns_launch", "direct");
    let mut session = Session::new(&profile);
    session.setup_response(&profile, &ok_result("")).expect("setup ok");
    let r = session.launch_response(&failed_result("binary missing"));
    match r {
        Err(Error::OperationFailure(m)) => {
            assert_eq!(m, "Failed to launch tunnel: binary missing");
        },
        _ => panic!("a non-zero launch exit must be an operation failure"),
    }
    assert!(matches!(session.state, SessionState::NamespaceReady));
}

#[test]
fn cleanup_forwards_the_recorded_pid_exactly() {
    let profile = profile_named("ns_clean", "direct");
    let mut session = Session::new(&profile);
    session.setup_response(&profile, &ok_result("")).expect("setup ok");
    let record = session.launch_response(&ok_result("31337\n")).expect("launch ok");

    // The PID travels through the persisted record, not through the
    // controller.
    let stored = encode_pid_record(&record);
    assert_eq!(stored, "31337");
    let read_back = decode_pid_record("ns_clean", &stored);
    assert_eq!(read_back.tunnel_pid, "31337");

    let teardown = session.cleanup_request(&read_back, "veth_host");
    assert_eq!(teardown.operation, "cleanup");
    assert_eq!(
        teardown.args,
        vec!["ns_clean".to_string(), "31337".to_string(), "veth_host".to_string()]
    );

    session.cleanup_response(&ok_result("")).expect("cleanup ok");
    assert!(matches!(session.state, SessionState::TornDown));
    assert!(session.tunnel_pid.is_none());
}

#[test]
fn failed_cleanup_reports_stderr() {
    let profile = profile_named("ns_c2", "direct");
    let mut session = Session::new(&profile);
    session.setup_response(&profile, &ok_result("")).expect("setup ok");
    let record = session.launch_response(&ok_result("7\n")).expect("launch ok");
    let _ = session.cleanup_request(&record, "veth_host");
    let r = session.cleanup_response(&failed_result("still busy"));
    match r {
        Err(Error::OperationFailure(m)) => {
            assert_eq!(m, "Failed to cleanup namespace: still busy");
        },
        _ => panic!("a non-zero cleanup exit must be an operation failure"),
    }
    assert!(matches!(session.state, SessionState::ProxyActive));
}

#[test]
fn run_request_carries_namespace_and_command() {
    let profile = profile_named("ns_run", "direct");
    let session = Session::new(&profile);
    let inv = session.run_request("curl https://example.org");
    assert_eq!(inv.operation, "run_command_in_namespace");
    assert_eq!(inv.args, vec!["ns_run".to_string(), "curl https://example.org".to_string()]);
    assert!(session.run_response(&ok_result("")).is_ok());
    match session.run_response(&failed_result("exec failed")) {
        Err(Error::OperationFailure(m)) => {
            assert_eq!(m, "Failed to run command in namespace: exec failed");
        },
        _ => panic!("a non-zero run exit must be an operation failure"),
    }
}

#[test]
fn sessions_for_different_namespaces_are_independent() {
    let p1 = profile_named("ns_one", "direct");
    let p2 = profile_named("ns_two", "direct");
    let mut s1 = Session::new(&p1);
    let mut s2 = Session::new(&p2);

    s1.setup_response(&p1, &ok_result("")).expect("setup one ok");
    s2.setup_response(&p2, &ok_result("")).expect("setup two ok");
    let r1 = s1.launch_response(&ok_result("101\n")).expect("launch one ok");
    let r2 = s2.launch_response(&ok_result("202\n")).expect("launch two ok");

    assert_eq!(r1.tunnel_pid, "101");
    assert_eq!(r2.tunnel_pid, "202");
    assert_ne!(pid_record_file_name("ns_one"), pid_record_file_name("ns_two"));
    assert_eq!(pid_record_file_name("ns_one"), "ns_one.pid");
}
