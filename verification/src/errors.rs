use vstd::prelude::*;

verus! {

/// Failure taxonomy of the manager.  Every failing step surfaces as one of
/// these variants with a message identifying the step; none is swallowed
/// silently except profile enumeration skipping unparsable files.
#[derive(Debug)]
pub enum Error {
    /// A file could not be read, written or created.
    IOFailure(String),
    /// A structured file does not match the expected record shape.
    DecodeFailure(String),
    /// The external runtime could not be started at all.
    GatewaySpawnFailure(String),
    /// An external operation returned a non-zero exit status; the message
    /// carries its captured diagnostic output.
    OperationFailure(String),
    /// The profile's protocol tag is not in the dispatch table.
    UnsupportedProtocol(String),
    /// A reachability probe returned no parseable, non-zero latency.
    HostUnreachable,
}

impl Error {
    /// The descriptive text carried by the variant, for display by callers.
    pub fn message(&self) -> (r: String)
        ensures
            match self {
                Error::IOFailure(m) => r@ == m@,
                Error::DecodeFailure(m) => r@ == m@,
                Error::GatewaySpawnFailure(m) => r@ == m@,
                Error::OperationFailure(m) => r@ == m@,
                Error::UnsupportedProtocol(m) => r@ == m@,
                Error::HostUnreachable => r@ == "Server is unreachable"@,
            },
    {
        match self {
            Error::IOFailure(m) => m.clone(),
            Error::DecodeFailure(m) => m.clone(),
            Error::GatewaySpawnFailure(m) => m.clone(),
            Error::OperationFailure(m) => m.clone(),
            Error::UnsupportedProtocol(m) => m.clone(),
            Error::HostUnreachable => String::from_str("Server is unreachable"),
        }
    }
}

} // verus!
