//! Verified core of a proxy-namespace session manager.
//!
//! An operator describes a proxy endpoint in a named profile; the manager
//! stands up an isolated network namespace wired to a protocol-specific
//! tunnel process, and later tears it down.  The privileged work itself is
//! performed by an external operation gateway that the surrounding program
//! invokes by name with positional string arguments; this crate holds the
//! logic that decides which operations run, with which arguments, and how
//! their captured output is interpreted.

pub mod codec;
pub mod dispatch;
pub mod environment;
pub mod errors;
pub mod gateway;
pub mod namespaces;
pub mod probe;
pub mod profile;
pub mod session;
pub mod store;
pub mod text;

pub use dispatch::{Invocation, Protocol};
pub use environment::{Elevation, EnvironmentSnapshot};
pub use errors::Error;
pub use gateway::ExecutionResult;
pub use namespaces::NamespaceInfo;
pub use profile::{Profile, ProfileView};
pub use session::{Session, SessionRecord, SessionState};
pub use store::{ProfileEntry, StoredFile};
