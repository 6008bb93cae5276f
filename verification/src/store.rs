use vstd::prelude::*;
use crate::codec::{
    encode_record, lemma_parse_record_round, parse_record, parse_record_text, record_text,
};
use crate::errors::Error;
use crate::profile::{profile_filename, with_defaults, Profile, ProfileView};
use crate::text::{chars_to_string, ends_with, has_suffix, str_to_chars, subvec};

verus! {

/// The field names of a stored profile, in the order they are written.
pub open spec fn profile_field_names() -> Seq<Seq<char>> {
    seq![
        "ip"@,
        "port"@,
        "protocol"@,
        "namespace"@,
        "username"@,
        "password"@,
        "tun_interface"@,
        "tun_ip"@,
        "veth_host"@,
        "veth_ns"@,
        "veth_host_ip"@,
        "veth_ns_ip"@,
        "dns"@,
    ]
}

/// A profile's field values, in the stored order.
pub open spec fn profile_values(v: ProfileView) -> Seq<Seq<char>> {
    seq![
        v.ip,
        v.port,
        v.protocol,
        v.namespace,
        v.username,
        v.password,
        v.tun_interface,
        v.tun_ip,
        v.veth_host,
        v.veth_ns,
        v.veth_host_ip,
        v.veth_ns_ip,
        v.dns,
    ]
}

/// The text a profile is persisted as.
pub open spec fn profile_text(v: ProfileView) -> Seq<char> {
    record_text(profile_field_names(), profile_values(v))
}

/// The profile that a sequence of stored field values denotes.
pub open spec fn profile_of_values(vs: Seq<Seq<char>>) -> ProfileView {
    ProfileView {
        ip: vs[0],
        port: vs[1],
        protocol: vs[2],
        namespace: vs[3],
        username: vs[4],
        password: vs[5],
        tun_interface: vs[6],
        tun_ip: vs[7],
        veth_host: vs[8],
        veth_ns: vs[9],
        veth_host_ip: vs[10],
        veth_ns_ip: vs[11],
        dns: vs[12],
    }
}

/// The profile a stored text denotes, or nothing when the text is not a
/// well-formed profile record.
pub open spec fn decode_profile(s: Seq<char>) -> Option<ProfileView> {
    match parse_record_text(s, profile_field_names()) {
        Some(vs) => Some(profile_of_values(vs)),
        None => None,
    }
}

/// A profile written out and read back comes back equal in every field:
/// the store's round trip.
pub proof fn lemma_profile_round_trip(v: ProfileView)
    ensures
        decode_profile(profile_text(v)) == Some(v),
{
    lemma_parse_record_round(profile_field_names(), profile_values(v));
}

fn profile_names_vec() -> (r: Vec<String>)
    ensures
        r.deep_view() == profile_field_names(),
        r@.len() == 13,
{
    let r: Vec<String> = vec![
        String::from_str("ip"),
        String::from_str("port"),
        String::from_str("protocol"),
        String::from_str("namespace"),
        String::from_str("username"),
        String::from_str("password"),
        String::from_str("tun_interface"),
        String::from_str("tun_ip"),
        String::from_str("veth_host"),
        String::from_str("veth_ns"),
        String::from_str("veth_host_ip"),
        String::from_str("veth_ns_ip"),
        String::from_str("dns"),
    ];
    proof {
        assert(r.deep_view() =~= profile_field_names());
    }
    r
}

/// Writes a profile in the canonical stored form.
pub fn encode_profile(profile: &Profile) -> (r: String)
    ensures
        r@ == profile_text(profile@),
{
    let names = profile_names_vec();
    let values: Vec<String> = vec![
        profile.ip.clone(),
        profile.port.clone(),
        profile.protocol.clone(),
        profile.namespace.clone(),
        profile.username.clone(),
        profile.password.clone(),
        profile.tun_interface.clone(),
        profile.tun_ip.clone(),
        profile.veth_host.clone(),
        profile.veth_ns.clone(),
        profile.veth_host_ip.clone(),
        profile.veth_ns_ip.clone(),
        profile.dns.clone(),
    ];
    proof {
        assert(values.deep_view() =~= profile_values(profile@));
    }
    encode_record(&names, &values)
}

/// Decodes the text of a stored profile file.
pub fn fetch_profile(content: &str) -> (r: Result<Profile, Error>)
    ensures
        match r {
            Ok(p) => decode_profile(content@) == Some(p@),
            Err(e) => decode_profile(content@) is None && e is DecodeFailure,
        },
{
    let names = profile_names_vec();
    match parse_record(content, &names) {
        Some(values) => {
            let p = Profile {
                ip: values[0].clone(),
                port: values[1].clone(),
                protocol: values[2].clone(),
                namespace: values[3].clone(),
                username: values[4].clone(),
                password: values[5].clone(),
                tun_interface: values[6].clone(),
                tun_ip: values[7].clone(),
                veth_host: values[8].clone(),
                veth_ns: values[9].clone(),
                veth_host_ip: values[10].clone(),
                veth_ns_ip: values[11].clone(),
                dns: values[12].clone(),
            };
            proof {
                assert(p@ == profile_of_values(values.deep_view()));
            }
            Ok(p)
        },
        None => Err(Error::DecodeFailure(String::from_str("Failed to parse profile"))),
    }
}

/// The name a profile is saved under together with the text to store:
/// defaults filled in for omitted fields, the file named after the
/// profile.
pub fn save_profile(name: &str, profile: Profile) -> (r: (String, String))
    ensures
        r.0@ == profile_filename(name@),
        r.1@ == profile_text(with_defaults(profile@)),
{
    let filled = profile.apply_defaults();
    (crate::profile::profile_file_name(name), encode_profile(&filled))
}

/// One file of the profile directory, as handed to the store: its name,
/// its full path and its text.
#[derive(Debug)]
pub struct StoredFile {
    pub name: String,
    pub path: String,
    pub content: String,
}

/// Model of a [`StoredFile`].
pub ghost struct StoredFileView {
    pub name: Seq<char>,
    pub path: Seq<char>,
    pub content: Seq<char>,
}

impl View for StoredFile {
    type V = StoredFileView;

    open spec fn view(&self) -> StoredFileView {
        StoredFileView { name: self.name@, path: self.path@, content: self.content@ }
    }
}

impl DeepView for StoredFile {
    type V = StoredFileView;

    open spec fn deep_view(&self) -> StoredFileView {
        self.view()
    }
}

/// One profile of the listing: the file's stem, its path and the decoded
/// profile.
#[derive(Debug)]
pub struct ProfileEntry {
    pub filename: String,
    pub path: String,
    pub profile: Profile,
}

/// Model of a [`ProfileEntry`].
pub ghost struct ProfileEntryView {
    pub filename: Seq<char>,
    pub path: Seq<char>,
    pub profile: ProfileView,
}

impl View for ProfileEntry {
    type V = ProfileEntryView;

    open spec fn view(&self) -> ProfileEntryView {
        ProfileEntryView { filename: self.filename@, path: self.path@, profile: self.profile@ }
    }
}

impl DeepView for ProfileEntry {
    type V = ProfileEntryView;

    open spec fn deep_view(&self) -> ProfileEntryView {
        self.view()
    }
}

/// Whether a file of the directory belongs in the listing: named with the
/// profile extension and holding a well-formed profile record.
pub open spec fn is_profile_file(f: StoredFileView) -> bool {
    ends_with(f.name, ".json"@) && decode_profile(f.content) is Some
}

/// The listing entry a file yields.
pub open spec fn entry_of(f: StoredFileView) -> ProfileEntryView {
    ProfileEntryView {
        filename: f.name.take(f.name.len() - 5),
        path: f.path,
        profile: decode_profile(f.content)->0,
    }
}

/// The profiles of a directory, in file order: every well-formed profile
/// file contributes one entry, anything else is passed over.
pub open spec fn profile_listing(files: Seq<StoredFileView>) -> Seq<ProfileEntryView>
    decreases files.len(),
{
    if files.len() == 0 {
        Seq::empty()
    } else if is_profile_file(files[0]) {
        seq![entry_of(files[0])] + profile_listing(files.skip(1))
    } else {
        profile_listing(files.skip(1))
    }
}

proof fn lemma_profile_listing_push(files: Seq<StoredFileView>, f: StoredFileView)
    ensures
        profile_listing(files.push(f)) == if is_profile_file(f) {
            profile_listing(files).push(entry_of(f))
        } else {
            profile_listing(files)
        },
    decreases files.len(),
{
    if files.len() == 0 {
        assert(files.push(f)[0] == f);
        assert(files.push(f).skip(1) =~= Seq::<StoredFileView>::empty());
        assert(profile_listing(Seq::<StoredFileView>::empty()) == Seq::<ProfileEntryView>::empty());
        if is_profile_file(f) {
            assert(profile_listing(files.push(f)) =~= profile_listing(files).push(entry_of(f)));
        }
    } else {
        assert(files.push(f).skip(1) =~= files.skip(1).push(f));
        lemma_profile_listing_push(files.skip(1), f);
        assert(files.push(f)[0] == files[0]);
        if is_profile_file(f) && is_profile_file(files[0]) {
            assert(profile_listing(files.push(f)) == seq![entry_of(files[0])] + profile_listing(
                files.skip(1),
            ).push(entry_of(f)));
            assert(seq![entry_of(files[0])] + profile_listing(files.skip(1)).push(entry_of(f)) =~= (
            seq![entry_of(files[0])] + profile_listing(files.skip(1))).push(entry_of(f)));
        }
    }
}

/// How many files of the directory are well-formed profile files.
pub open spec fn count_profile_files(files: Seq<StoredFileView>) -> int
    decreases files.len(),
{
    if files.len() == 0 {
        0
    } else if is_profile_file(files[0]) {
        1 + count_profile_files(files.skip(1))
    } else {
        count_profile_files(files.skip(1))
    }
}

/// A corrupt or foreign file never aborts the listing: the listing holds
/// exactly one entry per well-formed profile file, however many other
/// files stand beside them.
pub proof fn lemma_listing_counts_valid(files: Seq<StoredFileView>)
    ensures
        profile_listing(files).len() == count_profile_files(files),
    decreases files.len(),
{
    if files.len() > 0 {
        lemma_listing_counts_valid(files.skip(1));
    }
}

/// Builds the profile listing out of the files of the profile directory,
/// skipping silently whatever does not decode as a profile.
pub fn list_profiles(files: &Vec<StoredFile>) -> (r: Vec<ProfileEntry>)
    ensures
        r.deep_view() == profile_listing(files.deep_view()),
{
    let n = files.len();
    let mut r: Vec<ProfileEntry> = Vec::new();
    proof {
        assert(files.deep_view().take(0) =~= Seq::<StoredFileView>::empty());
        assert(r.deep_view() =~= Seq::<ProfileEntryView>::empty());
    }
    let mut i: usize = 0;
    while i < n
        invariant
            0 <= i <= n == files@.len(),
            r.deep_view() == profile_listing(files.deep_view().take(i as int)),
        decreases n - i,
    {
        let ghost fd = files.deep_view()[i as int];
        proof {
            lemma_profile_listing_push(files.deep_view().take(i as int), fd);
            assert(files.deep_view().take(i as int).push(fd) =~= files.deep_view().take(i + 1));
            assert(fd == files@[i as int]@);
        }
        proof {
            reveal_strlit(".json");
        }
        let name_chars = str_to_chars(files[i].name.as_str());
        if has_suffix(&name_chars, ".json") {
            match fetch_profile(files[i].content.as_str()) {
                Ok(profile) => {
                    let stem = subvec(&name_chars, 0, name_chars.len() - 5);
                    proof {
                        assert(stem@ =~= fd.name.take(fd.name.len() - 5));
                    }
                    let entry = ProfileEntry {
                        filename: chars_to_string(&stem),
                        path: files[i].path.clone(),
                        profile,
                    };
                    let ghost old_r = r.deep_view();
                    proof {
                        assert(is_profile_file(fd));
                        assert(entry@ == entry_of(fd));
                    }
                    r.push(entry);
                    proof {
                        assert(r.deep_view() =~= old_r.push(entry_of(fd)));
                    }
                },
                Err(_) => {
                    proof {
                        assert(!is_profile_file(fd));
                    }
                },
            }
        } else {
            proof {
                assert(!is_profile_file(fd));
            }
        }
        i = i + 1;
    }
    proof {
        assert(files.deep_view().take(n as int) =~= files.deep_view());
    }
    r
}

} // verus!
