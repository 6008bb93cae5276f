use proxyns::errors::Error;

#[test]
fn every_variant_reports_its_message() {
    assert_eq!(Error::IOFailure("Failed to write file".to_string()).message(), "Failed to write file");
    assert_eq!(Error::DecodeFailure("Failed to parse profile".to_string()).message(), "Failed to parse profile");
    assert_eq!(
        Error::GatewaySpawnFailure("Failed to run bash".to_string()).message(),
        "Failed to run bash"
    );
    assert_eq!(
        Error::OperationFailure("Failed to setup namespace: denied".to_string()).message(),
        "Failed to setup namespace: denied"
    );
    assert_eq!(
        Error::UnsupportedProtocol("Unsupported protocol: vpn9".to_string()).message(),
        "Unsupported protocol: vpn9"
    );
    assert_eq!(Error::HostUnreachable.message(), "Server is unreachable");
}
