use vstd::prelude::*;

verus! {

/// The distinct ways a single file's formatting round can fail.
#[derive(Clone, Copy, PartialEq, Eq, Structural, Debug)]
pub enum ErrorKind {
    /// The target file could not be read.
    FileAccess,
    /// The daemon could not be reached or the connection broke.
    Transport,
    /// The daemon rejected the request and sent a textual reason.
    ProtocolRejection,
    /// The daemon reported an internal failure.
    ServerFault,
    /// The daemon answered with a status outside the known set.
    UnrecognizedResponse,
    /// The reformatted bytes could not be swapped into place on disk.
    Persist,
}

/// A per-file failure: a kind that callers can match on, and a
/// human-readable description.
#[derive(Debug)]
pub struct BlackError {
    pub kind: ErrorKind,
    pub what_happened: String,
}

impl BlackError {
    /// Relies on std's `format!` with the `Debug` trait: renders any
    /// debug-printable failure value into the error's description.
    #[verifier::external_body]
    pub fn from_debug<T: core::fmt::Debug>(kind: ErrorKind, err: T) -> (r: BlackError)
        ensures
            r.kind == kind,
    {
        BlackError { kind, what_happened: format!("{:#?}", err) }
    }
}

} // verus!
