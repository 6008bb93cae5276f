use proxyns::{Profile, StoredFile};
use proxyns::store::{fetch_profile, list_profiles, save_profile};
use proxyns::errors::Error;

fn full_profile() -> Profile {
    Profile {
        ip: "203.0.113.7".to_string(),
        port: "1080".to_string(),
        protocol: "socks5".to_string(),
        namespace: "workns".to_string(),
        username: "alice".to_string(),
        password: "hunter2".to_string(),
        tun_interface: "tun3".to_string(),
        tun_ip: "10.0.0.9".to_string(),
        veth_host: "vh0".to_string(),
        veth_ns: "vn0".to_string(),
        veth_host_ip: "10.200.9.1".to_string(),
        veth_ns_ip: "10.200.9.2".to_string(),
        dns: "9.9.9.9".to_string(),
    }
}

#[test]
fn round_trip_preserves_every_field() {
    let (filename, content) = save_profile("work vpn", full_profile());
    assert_eq!(filename, "work_vpn.json");
    let loaded = fetch_profile(&content).expect("saved profile must load");
    let original = full_profile();
    assert_eq!(loaded.ip, original.ip);
    assert_eq!(loaded.port, original.port);
    assert_eq!(loaded.protocol, original.protocol);
    assert_eq!(loaded.namespace, original.namespace);
    assert_eq!(loaded.username, original.username);
    assert_eq!(loaded.password, original.password);
    assert_eq!(loaded.tun_interface, original.tun_interface);
    assert_eq!(loaded.tun_ip, original.tun_ip);
    assert_eq!(loaded.veth_host, original.veth_host);
    assert_eq!(loaded.veth_ns, original.veth_ns);
    assert_eq!(loaded.veth_host_ip, original.veth_host_ip);
    assert_eq!(loaded.veth_ns_ip, original.veth_ns_ip);
    assert_eq!(loaded.dns, original.dns);
}

#[test]
fn save_fills_documented_defaults() {
    let mut p = full_profile();
    p.namespace = String::new();
    p.tun_interface = String::new();
    p.tun_ip = String::new();
    p.veth_host = String::new();
    p.veth_ns = String::new();
    p.veth_host_ip = String::new();
    p.veth_ns_ip = String::new();
    p.dns = String::new();
    let (_, content) = save_profile("defaults", p);
    let loaded = fetch_profile(&content).expect("saved profile must load");
    assert_eq!(loaded.namespace, "proxied");
    assert_eq!(loaded.tun_interface, "tun0");
    assert_eq!(loaded.tun_ip, "10.0.0.2");
    assert_eq!(loaded.veth_host, "veth_host");
    assert_eq!(loaded.veth_ns, "veth_ns");
    assert_eq!(loaded.veth_host_ip, "10.200.1.1");
    assert_eq!(loaded.veth_ns_ip, "10.200.1.2");
    assert_eq!(loaded.dns, "8.8.8.8");
}

#[test]
fn round_trip_survives_awkward_characters() {
    let mut p = full_profile();
    p.password = "a\"b\\c\nd\te\r".to_string();
    p.username = "weird \"user\"".to_string();
    let (_, content) = save_profile("escapes", p);
    let loaded = fetch_profile(&content).expect("saved profile must load");
    assert_eq!(loaded.password, "a\"b\\c\nd\te\r");
    assert_eq!(loaded.username, "weird \"user\"");
}

#[test]
fn fetch_rejects_garbage_with_decode_failure() {
    let r = fetch_profile("not a profile at all");
    match r {
        Err(Error::DecodeFailure(_)) => {},
        _ => panic!("garbage must fail as a decode failure"),
    }
}

#[test]
fn fetch_rejects_truncated_record() {
    let (_, content) = save_profile("cut", full_profile());
    let truncated = &content[..content.len() - 4];
    assert!(fetch_profile(truncated).is_err());
}

#[test]
fn listing_skips_corrupt_files_and_counts_valid_ones() {
    let (name_a, content_a) = save_profile("alpha", full_profile());
    let (name_b, content_b) = save_profile("beta", full_profile());
    let files = vec![
        StoredFile {
            name: name_a,
            path: "/data/profiles/alpha.json".to_string(),
            content: content_a,
        },
        StoredFile {
            name: "broken.json".to_string(),
            path: "/data/profiles/broken.json".to_string(),
            content: "{{{ not a record".to_string(),
        },
        StoredFile {
            name: name_b,
            path: "/data/profiles/beta.json".to_string(),
            content: content_b,
        },
        StoredFile {
            name: "notes.txt".to_string(),
            path: "/data/profiles/notes.txt".to_string(),
            content: "unrelated".to_string(),
        },
    ];
    let listing = list_profiles(&files);
    assert_eq!(listing.len(), 2);
    assert_eq!(listing[0].filename, "alpha");
    assert_eq!(listing[0].path, "/data/profiles/alpha.json");
    assert_eq!(listing[1].filename, "beta");
    assert_eq!(listing[1].profile.ip, "203.0.113.7");
}

#[test]
fn stored_profile_is_well_formed_json() {
    let (_, content) = save_profile("interop", full_profile());
    let value: serde_json::Value =
        serde_json::from_str(&content).expect("stored profile must be valid JSON");
    assert_eq!(value.get("ip").and_then(|v| v.as_str()), Some("203.0.113.7"));
    assert_eq!(value.get("dns").and_then(|v| v.as_str()), Some("9.9.9.9"));
}

#[test]
fn stored_escapes_are_json_escapes() {
    let mut p = full_profile();
    p.password = "a\"b\\c\nd".to_string();
    let (_, content) = save_profile("interop2", p);
    let value: serde_json::Value =
        serde_json::from_str(&content).expect("stored profile must be valid JSON");
    assert_eq!(value.get("password").and_then(|v| v.as_str()), Some("a\"b\\c\nd"));
}
