use vstd::prelude::*;

verus! {

/// The failure taxonomy of the client.  A variant that stems from the
/// transport carries the collaborator library's rendered cause, kept for
/// diagnostics only.
#[derive(Debug, Clone)]
pub enum Error {
    /// The configuration is invalid — a malformed identity or address.  The
    /// operator must fix the input.
    Configuration(String),
    /// The credentials were refused.
    Credentials(String),
    /// A transport-level failure.
    Network(String),
    /// A malformed or unparsable unit at the session layer; distinct from a
    /// decoder rejection, which is routine and silent.
    XmppParseError(String),
    /// The underlying stream closed without an explicit error.
    StreamEnded,
}

} // verus!
