use vstd::prelude::*;
use crate::codec::{
    encode_record, lemma_parse_record_round, parse_record, parse_record_text, record_text,
};
use crate::errors::Error;

verus! {

/// What privileged subprocesses need to know of the invoking desktop
/// session: the real user, their directories, and the sockets and display
/// identifiers of the session.  Persisted verbatim once captured.
#[derive(Debug)]
pub struct EnvironmentSnapshot {
    pub user: String,
    pub uid: String,
    pub home: String,
    pub runtime_dir: String,
    pub audio_socket: String,
    pub bus_socket: String,
    pub display: String,
    pub xauthority: String,
    pub wayland_socket: String,
}

/// Model of an [`EnvironmentSnapshot`].
pub ghost struct EnvironmentSnapshotView {
    pub user: Seq<char>,
    pub uid: Seq<char>,
    pub home: Seq<char>,
    pub runtime_dir: Seq<char>,
    pub audio_socket: Seq<char>,
    pub bus_socket: Seq<char>,
    pub display: Seq<char>,
    pub xauthority: Seq<char>,
    pub wayland_socket: Seq<char>,
}

impl View for EnvironmentSnapshot {
    type V = EnvironmentSnapshotView;

    open spec fn view(&self) -> EnvironmentSnapshotView {
        EnvironmentSnapshotView {
            user: self.user@,
            uid: self.uid@,
            home: self.home@,
            runtime_dir: self.runtime_dir@,
            audio_socket: self.audio_socket@,
            bus_socket: self.bus_socket@,
            display: self.display@,
            xauthority: self.xauthority@,
            wayland_socket: self.wayland_socket@,
        }
    }
}

/// The field names of a persisted snapshot, in the order they are
/// written.
pub open spec fn environment_field_names() -> Seq<Seq<char>> {
    seq![
        "user"@,
        "uid"@,
        "home"@,
        "runtime_dir"@,
        "audio_socket"@,
        "bus_socket"@,
        "display"@,
        "xauthority"@,
        "wayland_socket"@,
    ]
}

/// A snapshot's field values, in the stored order.
pub open spec fn environment_values(v: EnvironmentSnapshotView) -> Seq<Seq<char>> {
    seq![
        v.user,
        v.uid,
        v.home,
        v.runtime_dir,
        v.audio_socket,
        v.bus_socket,
        v.display,
        v.xauthority,
        v.wayland_socket,
    ]
}

/// The text a snapshot is persisted as, and the shape the inspection
/// operation reports it in.
pub open spec fn environment_text(v: EnvironmentSnapshotView) -> Seq<char> {
    record_text(environment_field_names(), environment_values(v))
}

/// The snapshot that a sequence of stored field values denotes.
pub open spec fn environment_of_values(vs: Seq<Seq<char>>) -> EnvironmentSnapshotView {
    EnvironmentSnapshotView {
        user: vs[0],
        uid: vs[1],
        home: vs[2],
        runtime_dir: vs[3],
        audio_socket: vs[4],
        bus_socket: vs[5],
        display: vs[6],
        xauthority: vs[7],
        wayland_socket: vs[8],
    }
}

/// The snapshot a record text denotes, or nothing when the text is not a
/// well-formed snapshot record.
pub open spec fn decode_environment(s: Seq<char>) -> Option<EnvironmentSnapshotView> {
    match parse_record_text(s, environment_field_names()) {
        Some(vs) => Some(environment_of_values(vs)),
        None => None,
    }
}

/// A snapshot written out and read back comes back equal in every field.
pub proof fn lemma_environment_round_trip(v: EnvironmentSnapshotView)
    ensures
        decode_environment(environment_text(v)) == Some(v),
{
    lemma_parse_record_round(environment_field_names(), environment_values(v));
}

fn environment_names_vec() -> (r: Vec<String>)
    ensures
        r.deep_view() == environment_field_names(),
        r@.len() == 9,
{
    let r: Vec<String> = vec![
        String::from_str("user"),
        String::from_str("uid"),
        String::from_str("home"),
        String::from_str("runtime_dir"),
        String::from_str("audio_socket"),
        String::from_str("bus_socket"),
        String::from_str("display"),
        String::from_str("xauthority"),
        String::from_str("wayland_socket"),
    ];
    proof {
        assert(r.deep_view() =~= environment_field_names());
    }
    r
}

/// Writes a snapshot in the persisted form.
pub fn encode_environment(snapshot: &EnvironmentSnapshot) -> (r: String)
    ensures
        r@ == environment_text(snapshot@),
{
    let names = environment_names_vec();
    let values: Vec<String> = vec![
        snapshot.user.clone(),
        snapshot.uid.clone(),
        snapshot.home.clone(),
        snapshot.runtime_dir.clone(),
        snapshot.audio_socket.clone(),
        snapshot.bus_socket.clone(),
        snapshot.display.clone(),
        snapshot.xauthority.clone(),
        snapshot.wayland_socket.clone(),
    ];
    proof {
        assert(values.deep_view() =~= environment_values(snapshot@));
    }
    encode_record(&names, &values)
}

/// Rebuilds the environment snapshot from the inspection operation's
/// captured output.  A malformed report fails this call alone, as a
/// decode failure; it touches no session state.
pub fn reconstruct(output: &str) -> (r: Result<EnvironmentSnapshot, Error>)
    ensures
        match r {
            Ok(snapshot) => decode_environment(output@) == Some(snapshot@),
            Err(e) => decode_environment(output@) is None && e is DecodeFailure,
        },
{
    let names = environment_names_vec();
    match parse_record(output, &names) {
        Some(values) => {
            let snapshot = EnvironmentSnapshot {
                user: values[0].clone(),
                uid: values[1].clone(),
                home: values[2].clone(),
                runtime_dir: values[3].clone(),
                audio_socket: values[4].clone(),
                bus_socket: values[5].clone(),
                display: values[6].clone(),
                xauthority: values[7].clone(),
                wayland_socket: values[8].clone(),
            };
            proof {
                assert(snapshot@ == environment_of_values(values.deep_view()));
            }
            Ok(snapshot)
        },
        None => Err(Error::DecodeFailure(String::from_str("Failed to parse environment snapshot"))),
    }
}

/// The process-wide elevated-privilege credential, held as an explicit
/// value with an acquire/release pair: set by a request, read by each
/// privileged invocation, cleared by a stop.  Never persisted.
pub struct Elevation {
    secret: Option<String>,
}

impl Elevation {
    /// The credential the holder carries, if one is held.
    pub closed spec fn held(&self) -> Option<Seq<char>> {
        match self.secret {
            Some(s) => Some(s@),
            None => None,
        }
    }

    /// A holder with no credential.
    pub fn new() -> (r: Elevation)
        ensures
            r.held() is None,
    {
        Elevation { secret: None }
    }

    /// Acquires the credential for the rest of the process lifetime, or
    /// until it is released.
    pub fn request(&mut self, secret: String)
        ensures
            final(self).held() == Some(secret@),
    {
        self.secret = Some(secret);
    }

    /// Whether a credential is held.
    pub fn active(&self) -> (r: bool)
        ensures
            r == (self.held() is Some),
    {
        self.secret.is_some()
    }

    /// The held credential, for one privileged invocation.
    pub fn credential(&self) -> (r: Option<&String>)
        ensures
            match r {
                Some(s) => self.held() == Some(s@),
                None => self.held() is None,
            },
    {
        self.secret.as_ref()
    }

    /// Releases the credential.
    pub fn stop(&mut self)
        ensures
            final(self).held() is None,
    {
        self.secret = None;
    }
}

} // verus!
