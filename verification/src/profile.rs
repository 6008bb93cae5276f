use vstd::prelude::*;
use vstd::string::StrSliceExecFns;

verus! {

/// One proxy configuration: the endpoint, the protocol, the namespace and
/// interface names it is wired through, and optional credentials.
#[derive(Debug)]
pub struct Profile {
    pub ip: String,
    pub port: String,
    pub protocol: String,
    pub namespace: String,
    pub username: String,
    pub password: String,
    pub tun_interface: String,
    pub tun_ip: String,
    pub veth_host: String,
    pub veth_ns: String,
    pub veth_host_ip: String,
    pub veth_ns_ip: String,
    pub dns: String,
}

/// Mathematical model of a [`Profile`]: each field as a character sequence.
pub ghost struct ProfileView {
    pub ip: Seq<char>,
    pub port: Seq<char>,
    pub protocol: Seq<char>,
    pub namespace: Seq<char>,
    pub username: Seq<char>,
    pub password: Seq<char>,
    pub tun_interface: Seq<char>,
    pub tun_ip: Seq<char>,
    pub veth_host: Seq<char>,
    pub veth_ns: Seq<char>,
    pub veth_host_ip: Seq<char>,
    pub veth_ns_ip: Seq<char>,
    pub dns: Seq<char>,
}

impl View for Profile {
    type V = ProfileView;

    open spec fn view(&self) -> ProfileView {
        ProfileView {
            ip: self.ip@,
            port: self.port@,
            protocol: self.protocol@,
            namespace: self.namespace@,
            username: self.username@,
            password: self.password@,
            tun_interface: self.tun_interface@,
            tun_ip: self.tun_ip@,
            veth_host: self.veth_host@,
            veth_ns: self.veth_ns@,
            veth_host_ip: self.veth_host_ip@,
            veth_ns_ip: self.veth_ns_ip@,
            dns: self.dns@,
        }
    }
}

impl Clone for Profile {
    fn clone(&self) -> (r: Self)
        ensures
            r@ == self@,
    {
        Profile {
            ip: self.ip.clone(),
            port: self.port.clone(),
            protocol: self.protocol.clone(),
            namespace: self.namespace.clone(),
            username: self.username.clone(),
            password: self.password.clone(),
            tun_interface: self.tun_interface.clone(),
            tun_ip: self.tun_ip.clone(),
            veth_host: self.veth_host.clone(),
            veth_ns: self.veth_ns.clone(),
            veth_host_ip: self.veth_host_ip.clone(),
            veth_ns_ip: self.veth_ns_ip.clone(),
            dns: self.dns.clone(),
        }
    }
}

/// `v` where an empty value falls back to the documented default `d`.
pub open spec fn default_or(v: Seq<char>, d: Seq<char>) -> Seq<char> {
    if v.len() == 0 {
        d
    } else {
        v
    }
}

/// The default-fill rule: every networking field that was left empty takes
/// its fixed documented default; endpoint and credential fields stay as
/// given (credentials are meaningful only for the protocols that use them).
pub open spec fn with_defaults(v: ProfileView) -> ProfileView {
    ProfileView {
        namespace: default_or(v.namespace, "proxied"@),
        tun_interface: default_or(v.tun_interface, "tun0"@),
        tun_ip: default_or(v.tun_ip, "10.0.0.2"@),
        veth_host: default_or(v.veth_host, "veth_host"@),
        veth_ns: default_or(v.veth_ns, "veth_ns"@),
        veth_host_ip: default_or(v.veth_host_ip, "10.200.1.1"@),
        veth_ns_ip: default_or(v.veth_ns_ip, "10.200.1.2"@),
        dns: default_or(v.dns, "8.8.8.8"@),
        ..v
    }
}

fn field_or(v: String, d: &str) -> (r: String)
    ensures
        r@ == default_or(v@, d@),
{
    if v.unicode_len() == 0 {
        String::from_str(d)
    } else {
        v
    }
}

impl Profile {
    /// Fills every omitted networking field with its documented default.
    pub fn apply_defaults(self) -> (r: Profile)
        ensures
            r@ == with_defaults(self@),
    {
        Profile {
            namespace: field_or(self.namespace, "proxied"),
            tun_interface: field_or(self.tun_interface, "tun0"),
            tun_ip: field_or(self.tun_ip, "10.0.0.2"),
            veth_host: field_or(self.veth_host, "veth_host"),
            veth_ns: field_or(self.veth_ns, "veth_ns"),
            veth_host_ip: field_or(self.veth_host_ip, "10.200.1.1"),
            veth_ns_ip: field_or(self.veth_ns_ip, "10.200.1.2"),
            dns: field_or(self.dns, "8.8.8.8"),
            ..self
        }
    }
}

/// The file name a profile is stored under: the profile's name with spaces
/// replaced by underscores, plus the fixed extension.
pub open spec fn profile_filename(name: Seq<char>) -> Seq<char> {
    name.map_values(|c: char| if c == ' ' { '_' } else { c }) + ".json"@
}

/// Derives the file name for a profile saved under `name`.
pub fn profile_file_name(name: &str) -> (r: String)
    ensures
        r@ == profile_filename(name@),
{
    let n = name.unicode_len();
    let mut v: Vec<char> = Vec::new();
    let mut i: usize = 0;
    while i < n
        invariant
            0 <= i <= n == name@.len(),
            v@ =~= name@.take(i as int).map_values(|c: char| if c == ' ' { '_' } else { c }),
        decreases n - i,
    {
        let c = name.get_char(i);
        if c == ' ' {
            v.push('_');
        } else {
            v.push(c);
        }
        i = i + 1;
        proof {
            assert(v@ =~= name@.take(i as int).map_values(
                |c: char| if c == ' ' { '_' } else { c },
            ));
        }
    }
    proof {
        assert(name@.take(n as int) =~= name@);
    }
    let stem = crate::text::chars_to_string(&v);
    stem.concat(".json")
}

} // verus!
