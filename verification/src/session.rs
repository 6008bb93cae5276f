use vstd::prelude::*;
use crate::dispatch::{launch_invocation, launch_plan, setup_invocation, setup_args, Invocation};
use crate::errors::Error;
use crate::gateway::ExecutionResult;
use crate::profile::Profile;
use crate::text::{str_to_chars, trim, trim_chars, chars_to_string};

verus! {

/// Where a session stands in its lifecycle.  `Uninitialized` means no
/// namespace exists yet for the profile; `TornDown` is terminal.
#[derive(Clone, Copy, Debug, PartialEq, Eq, Structural)]
pub enum SessionState {
    Uninitialized,
    NamespaceReady,
    ProxyActive,
    TornDown,
}

/// The persisted runtime state of one namespace+tunnel pairing: written
/// once the launch succeeds, read back by teardown.
#[derive(Debug)]
pub struct SessionRecord {
    pub namespace_name: String,
    pub tunnel_pid: String,
}

/// The session lifecycle controller for one namespace.  It decides which
/// external operation runs next and how each captured result changes the
/// session; the caller performs the invocations and feeds the results
/// back.  Controllers for different namespaces share no state.
#[derive(Debug)]
pub struct Session {
    pub state: SessionState,
    pub namespace_name: String,
    pub tunnel_pid: Option<String>,
}

impl Session {
    /// A fresh session for the namespace `profile` describes.
    pub fn new(profile: &Profile) -> (s: Session)
        ensures
            s.state == SessionState::Uninitialized,
            s.namespace_name@ == profile@.namespace,
            s.tunnel_pid is None,
    {
        Session {
            state: SessionState::Uninitialized,
            namespace_name: profile.namespace.clone(),
            tunnel_pid: None,
        }
    }

    /// The first step of `setup`: the generic namespace-setup operation
    /// with the profile's networking fields.  Nothing is decided yet, so
    /// the session does not change.
    pub fn setup_request(&self, profile: &Profile) -> (r: Invocation)
        ensures
            r.operation@ == "setup_namespace"@,
            r.args.deep_view() == setup_args(profile@),
    {
        setup_invocation(profile)
    }

    /// Consumes the result of the namespace-setup operation.  On success
    /// the namespace stands and the protocol's launch step is resolved via
    /// the dispatch table; an unrecognised protocol surfaces as
    /// `UnsupportedProtocol` while the namespace is deliberately left
    /// standing for the caller to tear down.  A non-zero exit status
    /// surfaces as `OperationFailure` and changes nothing.
    pub fn setup_response(&mut self, profile: &Profile, result: &ExecutionResult) -> (r: Result<
        Invocation,
        Error,
    >)
        ensures
            result.exit_code != 0 ==> {
                &&& *final(self) == *old(self)
                &&& r matches Err(e) && e matches Error::OperationFailure(m) && m@
                    == "Failed to setup namespace: "@ + result.stderr@
            },
            result.exit_code == 0 ==> {
                &&& final(self).state == SessionState::NamespaceReady
                &&& final(self).namespace_name == old(self).namespace_name
                &&& final(self).tunnel_pid == old(self).tunnel_pid
                &&& match r {
                    Ok(inv) => launch_plan(profile@) == Some(inv.model()),
                    Err(e) => {
                        &&& launch_plan(profile@) is None
                        &&& e matches Error::UnsupportedProtocol(m) && m@
                            == "Unsupported protocol: "@ + profile@.protocol
                    },
                }
            },
    {
        if result.exit_code != 0 {
            let m = String::from_str("Failed to setup namespace: ").concat(
                result.stderr.as_str(),
            );
            return Err(Error::OperationFailure(m));
        }
        self.state = SessionState::NamespaceReady;
        launch_invocation(profile)
    }

    /// Consumes the result of the tunnel-launch operation.  On success the
    /// operation's trimmed stdout is the tunnel process's PID: the session
    /// becomes `ProxyActive` and the record to persist is returned.
    pub fn launch_response(&mut self, result: &ExecutionResult) -> (r: Result<
        SessionRecord,
        Error,
    >)
        ensures
            result.exit_code != 0 ==> {
                &&& *final(self) == *old(self)
                &&& r matches Err(e) && e matches Error::OperationFailure(m) && m@
                    == "Failed to launch tunnel: "@ + result.stderr@
            },
            result.exit_code == 0 ==> {
                &&& final(self).state == SessionState::ProxyActive
                &&& final(self).namespace_name == old(self).namespace_name
                &&& final(self).tunnel_pid matches Some(p) && p@ == trim(result.stdout@)
                &&& r matches Ok(rec) && rec.namespace_name@ == old(self).namespace_name@
                    && rec.tunnel_pid@ == trim(result.stdout@)
            },
    {
        if result.exit_code != 0 {
            let m = String::from_str("Failed to launch tunnel: ").concat(result.stderr.as_str());
            return Err(Error::OperationFailure(m));
        }
        let chars = str_to_chars(result.stdout.as_str());
        let trimmed = trim_chars(&chars);
        let pid = chars_to_string(&trimmed);
        self.state = SessionState::ProxyActive;
        self.tunnel_pid = Some(pid.clone());
        Ok(SessionRecord { namespace_name: self.namespace_name.clone(), tunnel_pid: pid })
    }

    /// The operation that executes `cmd` inside the already-created
    /// namespace.  It needs no session record and changes no state; it may
    /// be issued any number of times.
    pub fn run_request(&self, cmd: &str) -> (r: Invocation)
        ensures
            r.operation@ == "run_command_in_namespace"@,
            r.args.deep_view() =~= seq![self.namespace_name@, cmd@],
    {
        let args: Vec<String> = vec![self.namespace_name.clone(), String::from_str(cmd)];
        proof {
            assert(args.deep_view() =~= seq![self.namespace_name@, cmd@]);
        }
        Invocation { operation: String::from_str("run_command_in_namespace"), args }
    }

    /// Consumes the result of an in-namespace command run.  State does not
    /// change either way; a non-zero exit status is reported upward.
    pub fn run_response(&self, result: &ExecutionResult) -> (r: Result<(), Error>)
        ensures
            result.exit_code == 0 <==> r is Ok,
            result.exit_code != 0 ==> {
                &&& r matches Err(e)
                &&& e matches Error::OperationFailure(m) && m@
                    == "Failed to run command in namespace: "@ + result.stderr@
            },
    {
        if result.exit_code != 0 {
            let m = String::from_str("Failed to run command in namespace: ").concat(
                result.stderr.as_str(),
            );
            return Err(Error::OperationFailure(m));
        }
        Ok(())
    }

    /// The teardown operation for this session's namespace.  The PID must
    /// be the one read back from the persisted session record; it is
    /// forwarded to the operation exactly as supplied, between the
    /// namespace name and the host-side veth interface name.
    pub fn cleanup_request(&self, record: &SessionRecord, veth_host: &str) -> (r: Invocation)
        ensures
            r.operation@ == "cleanup"@,
            r.args.deep_view() =~= seq![self.namespace_name@, record.tunnel_pid@, veth_host@],
    {
        let args: Vec<String> = vec![
            self.namespace_name.clone(),
            record.tunnel_pid.clone(),
            String::from_str(veth_host),
        ];
        proof {
            assert(args.deep_view() =~= seq![
                self.namespace_name@,
                record.tunnel_pid@,
                veth_host@,
            ]);
        }
        Invocation { operation: String::from_str("cleanup"), args }
    }

    /// Consumes the result of teardown.  On success the namespace and its
    /// interfaces are gone: the session is terminal and holds no PID.
    pub fn cleanup_response(&mut self, result: &ExecutionResult) -> (r: Result<(), Error>)
        ensures
            result.exit_code != 0 ==> {
                &&& *final(self) == *old(self)
                &&& r matches Err(e) && e matches Error::OperationFailure(m) && m@
                    == "Failed to cleanup namespace: "@ + result.stderr@
            },
            result.exit_code == 0 ==> {
                &&& final(self).state == SessionState::TornDown
                &&& final(self).namespace_name == old(self).namespace_name
                &&& final(self).tunnel_pid is None
                &&& r is Ok
            },
    {
        if result.exit_code != 0 {
            let m = String::from_str("Failed to cleanup namespace: ").concat(
                result.stderr.as_str(),
            );
            return Err(Error::OperationFailure(m));
        }
        self.state = SessionState::TornDown;
        self.tunnel_pid = None;
        Ok(())
    }
}

/// The file that persists the tunnel PID for `namespace`, as plain text.
pub open spec fn pid_record_name(namespace: Seq<char>) -> Seq<char> {
    namespace + ".pid"@
}

/// Derives the PID-record file name for a namespace.
pub fn pid_record_file_name(namespace: &str) -> (r: String)
    ensures
        r@ == pid_record_name(namespace@),
{
    String::from_str(namespace).concat(".pid")
}

/// The text persisted for a session record: the tunnel PID alone.
pub fn encode_pid_record(record: &SessionRecord) -> (r: String)
    ensures
        r@ == record.tunnel_pid@,
{
    record.tunnel_pid.clone()
}

/// Reads a session record back from the PID-record text of `namespace`.
pub fn decode_pid_record(namespace: &str, content: &str) -> (r: SessionRecord)
    ensures
        r.namespace_name@ == namespace@,
        r.tunnel_pid@ == trim(content@),
{
    let chars = str_to_chars(content);
    let trimmed = trim_chars(&chars);
    SessionRecord {
        namespace_name: String::from_str(namespace),
        tunnel_pid: chars_to_string(&trimmed),
    }
}

/// Appending the same suffix to two different sequences cannot make them
/// equal.
proof fn lemma_append_right_cancel(a: Seq<char>, b: Seq<char>, s: Seq<char>)
    requires
        a + s == b + s,
    ensures
        a == b,
{
    assert((a + s).len() == a.len() + s.len());
    assert((b + s).len() == b.len() + s.len());
    assert(a.len() == b.len());
    assert forall|i: int| 0 <= i < a.len() implies a[i] == b[i] by {
        assert((a + s)[i] == a[i]);
        assert((b + s)[i] == b[i]);
    }
    assert(a =~= b);
}

/// Sessions for two different namespace names persist their PIDs under two
/// different record files: concurrent setups cannot corrupt each other's
/// record.
pub proof fn lemma_distinct_pid_records(ns1: Seq<char>, ns2: Seq<char>)
    requires
        ns1 != ns2,
    ensures
        pid_record_name(ns1) != pid_record_name(ns2),
{
    if pid_record_name(ns1) == pid_record_name(ns2) {
        lemma_append_right_cancel(ns1, ns2, ".pid"@);
    }
}

} // verus!
