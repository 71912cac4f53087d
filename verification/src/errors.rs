use vstd::prelude::*;

verus! {

/// The kinds of failure a scan can surface. Every failure aborts the whole
/// scan; none is silently skipped.
#[derive(Clone, Copy, Debug, PartialEq, Eq, Structural)]
pub enum ScanError {
    /// The command or the output-parser process could not start.
    SpawnFailure,
    /// A broken pipe or a non-UTF-8 decode while bridging or reading.
    StreamFailure,
    /// The remote host could not be resolved or the connection was refused.
    RemoteConnectFailure,
    /// The remote credential or handshake was rejected.
    RemoteAuthFailure,
    /// Malformed JSON from the parser or from the array-flattening step.
    ParseFailure,
    /// A record's field failed to coerce to its declared type.
    SchemaMismatch,
    /// No command specification exists for the requested logical table name.
    UnknownTable,
}

impl ScanError {
    /// A fixed human-readable phrase for each failure kind.
    pub fn describe(&self) -> (r: &'static str)
        ensures
            *self == ScanError::SpawnFailure ==> r@ == "failed to start a process"@,
            *self == ScanError::StreamFailure ==> r@ == "failed to read or bridge a stream"@,
            *self == ScanError::RemoteConnectFailure ==> r@ == "failed to reach the remote host"@,
            *self == ScanError::RemoteAuthFailure ==> r@ == "failed to authenticate to the remote host"@,
            *self == ScanError::ParseFailure ==> r@ == "malformed JSON output"@,
            *self == ScanError::SchemaMismatch ==> r@ == "record does not match the declared schema"@,
            *self == ScanError::UnknownTable ==> r@ == "unknown table"@,
    {
        match self {
            ScanError::SpawnFailure => "failed to start a process",
            ScanError::StreamFailure => "failed to read or bridge a stream",
            ScanError::RemoteConnectFailure => "failed to reach the remote host",
            ScanError::RemoteAuthFailure => "failed to authenticate to the remote host",
            ScanError::ParseFailure => "malformed JSON output",
            ScanError::SchemaMismatch => "record does not match the declared schema",
            ScanError::UnknownTable => "unknown table",
        }
    }
}

} // verus!
