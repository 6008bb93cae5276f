use proxyns::{Elevation, EnvironmentSnapshot};
use proxyns::environment::{encode_environment, reconstruct};
use proxyns::errors::Error;
use proxyns::gateway::gateway_command;

fn snapshot() -> EnvironmentSnapshot {
    EnvironmentSnapshot {
        user: "alice".to_string(),
        uid: "1000".to_string(),
        home: "/home/alice".to_string(),
        runtime_dir: "/run/user/1000".to_string(),
        audio_socket: "/run/user/1000/pulse/native".to_string(),
        bus_socket: "/run/user/1000/bus".to_string(),
        display: ":0".to_string(),
        xauthority: "/home/alice/.Xauthority".to_string(),
        wayland_socket: "wayland-0".to_string(),
    }
}

#[test]
fn environment_snapshot_round_trips() {
    let text = encode_environment(&snapshot());
    let back = reconstruct(&text).expect("a written snapshot must reconstruct");
    assert_eq!(back.user, "alice");
    assert_eq!(back.uid, "1000");
    assert_eq!(back.home, "/home/alice");
    assert_eq!(back.runtime_dir, "/run/user/1000");
    assert_eq!(back.audio_socket, "/run/user/1000/pulse/native");
    assert_eq!(back.bus_socket, "/run/user/1000/bus");
    assert_eq!(back.display, ":0");
    assert_eq!(back.xauthority, "/home/alice/.Xauthority");
    assert_eq!(back.wayland_socket, "wayland-0");
}

#[test]
fn malformed_snapshot_output_is_a_decode_failure() {
    assert!(matches!(reconstruct("nonsense"), Err(Error::DecodeFailure(_))));
    assert!(matches!(reconstruct(""), Err(Error::DecodeFailure(_))));
}

#[test]
fn elevation_follows_request_and_stop() {
    let mut elevation = Elevation::new();
    assert!(!elevation.active());
    assert!(elevation.credential().is_none());
    elevation.request("SECRET-REDACTED".to_string());
    assert!(elevation.active());
    assert_eq!(elevation.credential().expect("credential held"), "SECRET-REDACTED");
    elevation.stop();
    assert!(!elevation.active());
    assert!(elevation.credential().is_none());
}

#[test]
fn gateway_command_quotes_the_definitions_path() {
    assert_eq!(
        gateway_command("/opt/app/functions.sh", "setup_namespace"),
        "set -euo pipefail; source '/opt/app/functions.sh' && setup_namespace \"$@\""
    );
}

#[test]
fn gateway_command_escapes_quotes_inside_the_path() {
    assert_eq!(
        gateway_command("/odd'dir/functions.sh", "ping_test"),
        "set -euo pipefail; source '/odd'\\''dir/functions.sh' && ping_test \"$@\""
    );
}
