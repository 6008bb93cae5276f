use vstd::prelude::*;
use crate::errors::Error;
use crate::profile::{Profile, ProfileView};
use crate::text::str_eq;

verus! {

/// The closed set of supported tunnelling protocols.
#[derive(Clone, Copy, PartialEq, Eq, Structural)]
pub enum Protocol {
    Socks5,
    Socks4,
    Http,
    Shadowsocks,
    Relay,
    Direct,
    Reject,
}

/// The tag under which a protocol appears in a profile.
pub open spec fn protocol_tag(p: Protocol) -> Seq<char> {
    match p {
        Protocol::Socks5 => "socks5"@,
        Protocol::Socks4 => "socks4"@,
        Protocol::Http => "http"@,
        Protocol::Shadowsocks => "shadowsocks"@,
        Protocol::Relay => "relay"@,
        Protocol::Direct => "direct"@,
        Protocol::Reject => "reject"@,
    }
}

/// The protocol a tag denotes, if any.
pub open spec fn protocol_of_tag(tag: Seq<char>) -> Option<Protocol> {
    if tag == "socks5"@ {
        Some(Protocol::Socks5)
    } else if tag == "socks4"@ {
        Some(Protocol::Socks4)
    } else if tag == "http"@ {
        Some(Protocol::Http)
    } else if tag == "shadowsocks"@ {
        Some(Protocol::Shadowsocks)
    } else if tag == "relay"@ {
        Some(Protocol::Relay)
    } else if tag == "direct"@ {
        Some(Protocol::Direct)
    } else if tag == "reject"@ {
        Some(Protocol::Reject)
    } else {
        None
    }
}

/// Resolves a protocol tag against the dispatch table.
pub fn parse_protocol(tag: &str) -> (r: Option<Protocol>)
    ensures
        r == protocol_of_tag(tag@),
{
    if str_eq(tag, "socks5") {
        Some(Protocol::Socks5)
    } else if str_eq(tag, "socks4") {
        Some(Protocol::Socks4)
    } else if str_eq(tag, "http") {
        Some(Protocol::Http)
    } else if str_eq(tag, "shadowsocks") {
        Some(Protocol::Shadowsocks)
    } else if str_eq(tag, "relay") {
        Some(Protocol::Relay)
    } else if str_eq(tag, "direct") {
        Some(Protocol::Direct)
    } else if str_eq(tag, "reject") {
        Some(Protocol::Reject)
    } else {
        None
    }
}

/// One request to the external operation gateway: an operation name and the
/// ordered positional string arguments it is invoked with.
#[derive(Debug)]
pub struct Invocation {
    pub operation: String,
    pub args: Vec<String>,
}

impl Invocation {
    /// Model of an invocation: operation name and argument list as
    /// character sequences.
    pub open spec fn model(&self) -> (Seq<char>, Seq<Seq<char>>) {
        (self.operation@, self.args.deep_view())
    }
}

/// The external operation that launches the tunnel process for `p`.
pub open spec fn launch_operation(p: Protocol) -> Seq<char> {
    match p {
        Protocol::Socks5 => "tun2socks_socks5"@,
        Protocol::Socks4 => "tun2socks_socks4"@,
        Protocol::Http => "tun2socks_http"@,
        Protocol::Shadowsocks => "tun2socks_shadowsocks"@,
        Protocol::Relay => "tun2socks_relay"@,
        Protocol::Direct => "tun2socks_direct"@,
        Protocol::Reject => "tun2socks_reject"@,
    }
}

/// The exact argument list forwarded to the launch operation of `p`:
/// endpoint and namespace wiring first, then the credential subset the
/// protocol uses.  The address/port-agnostic policies `direct` and
/// `reject` receive only the namespace and the tun interface.
pub open spec fn launch_args(p: Protocol, v: ProfileView) -> Seq<Seq<char>> {
    match p {
        Protocol::Socks5 => seq![v.ip, v.port, v.namespace, v.tun_interface, v.username, v.password],
        Protocol::Socks4 => seq![v.ip, v.port, v.namespace, v.tun_interface, v.username],
        Protocol::Http => seq![v.ip, v.port, v.namespace, v.tun_interface],
        Protocol::Shadowsocks => seq![
            v.ip,
            v.port,
            v.namespace,
            v.tun_interface,
            v.username,
            v.password,
        ],
        Protocol::Relay => seq![v.ip, v.port, v.namespace, v.tun_interface, v.username, v.password],
        Protocol::Direct => seq![v.namespace, v.tun_interface],
        Protocol::Reject => seq![v.namespace, v.tun_interface],
    }
}

/// The address/port-agnostic policies model "no remote endpoint": their
/// launch operations are invoked with only the namespace and the tun
/// interface, whatever endpoint or credential fields the profile carries.
pub proof fn lemma_endpoint_free_launch(v: ProfileView)
    ensures
        launch_args(Protocol::Direct, v) =~= seq![v.namespace, v.tun_interface],
        launch_args(Protocol::Reject, v) =~= seq![v.namespace, v.tun_interface],
{
}

/// The launch step the dispatch table prescribes for a profile: the
/// protocol's operation name with its argument subset, or nothing when the
/// tag is not in the table.
pub open spec fn launch_plan(v: ProfileView) -> Option<(Seq<char>, Seq<Seq<char>>)> {
    match protocol_of_tag(v.protocol) {
        Some(p) => Some((launch_operation(p), launch_args(p, v))),
        None => None,
    }
}

fn launch_operation_name(p: Protocol) -> (r: String)
    ensures
        r@ == launch_operation(p),
{
    match p {
        Protocol::Socks5 => String::from_str("tun2socks_socks5"),
        Protocol::Socks4 => String::from_str("tun2socks_socks4"),
        Protocol::Http => String::from_str("tun2socks_http"),
        Protocol::Shadowsocks => String::from_str("tun2socks_shadowsocks"),
        Protocol::Relay => String::from_str("tun2socks_relay"),
        Protocol::Direct => String::from_str("tun2socks_direct"),
        Protocol::Reject => String::from_str("tun2socks_reject"),
    }
}

/// Resolves the protocol-specific tunnel launch for `profile`.  This is
/// pure table lookup: no external operation is invoked here, and an
/// unrecognised tag yields `UnsupportedProtocol` with no invocation at all.
pub fn launch_invocation(profile: &Profile) -> (r: Result<Invocation, Error>)
    ensures
        match r {
            Ok(inv) => launch_plan(profile@) == Some(inv.model()),
            Err(e) => {
                &&& launch_plan(profile@) is None
                &&& e matches Error::UnsupportedProtocol(m) && m@ == "Unsupported protocol: "@
                    + profile@.protocol
            },
        },
{
    match parse_protocol(profile.protocol.as_str()) {
        Some(p) => {
            let operation = launch_operation_name(p);
            let args: Vec<String> = match p {
                Protocol::Socks5 | Protocol::Shadowsocks | Protocol::Relay => vec![
                    profile.ip.clone(),
                    profile.port.clone(),
                    profile.namespace.clone(),
                    profile.tun_interface.clone(),
                    profile.username.clone(),
                    profile.password.clone(),
                ],
                Protocol::Socks4 => vec![
                    profile.ip.clone(),
                    profile.port.clone(),
                    profile.namespace.clone(),
                    profile.tun_interface.clone(),
                    profile.username.clone(),
                ],
                Protocol::Http => vec![
                    profile.ip.clone(),
                    profile.port.clone(),
                    profile.namespace.clone(),
                    profile.tun_interface.clone(),
                ],
                Protocol::Direct | Protocol::Reject => vec![
                    profile.namespace.clone(),
                    profile.tun_interface.clone(),
                ],
            };
            proof {
                assert(args.deep_view() =~= launch_args(p, profile@));
            }
            Ok(Invocation { operation, args })
        },
        None => {
            let m = String::from_str("Unsupported protocol: ").concat(profile.protocol.as_str());
            Err(Error::UnsupportedProtocol(m))
        },
    }
}

/// The namespace-independent setup step: one operation, invariant across
/// protocols, taking the profile's networking fields in this exact order.
pub open spec fn setup_args(v: ProfileView) -> Seq<Seq<char>> {
    seq![
        v.ip,
        v.port,
        v.namespace,
        v.tun_interface,
        v.tun_ip,
        v.veth_host,
        v.veth_ns,
        v.veth_host_ip,
        v.veth_ns_ip,
        v.dns,
    ]
}

/// Builds the generic namespace-setup invocation for `profile`.
pub fn setup_invocation(profile: &Profile) -> (r: Invocation)
    ensures
        r.operation@ == "setup_namespace"@,
        r.args.deep_view() == setup_args(profile@),
{
    let args: Vec<String> = vec![
        profile.ip.clone(),
        profile.port.clone(),
        profile.namespace.clone(),
        profile.tun_interface.clone(),
        profile.tun_ip.clone(),
        profile.veth_host.clone(),
        profile.veth_ns.clone(),
        profile.veth_host_ip.clone(),
        profile.veth_ns_ip.clone(),
        profile.dns.clone(),
    ];
    proof {
        assert(args.deep_view() =~= setup_args(profile@));
    }
    Invocation { operation: String::from_str("setup_namespace"), args }
}

} // verus!
