//! The error taxonomy of the export: transport failures, protocol
//! failures, local storage failures fatal to the job, and remote refusals
//! carrying the status code the blob store answered with.

use vstd::prelude::*;

verus! {

#[derive(Clone, Copy, Debug, PartialEq, Eq, Structural)]
pub enum ExportError {
    /// The network transport failed: connection refused, timed out.
    Transport,
    /// The peer answered, but not as the protocol promises: unexpected
    /// status, malformed body, missing cursor.
    Protocol,
    /// A local open, read, write or delete failed; the artifact cannot be
    /// trusted, so this is fatal to the job.
    LocalStorage,
    /// The blob store answered the put call with this status code; only
    /// exactly 200 counts as success.
    RemoteStatus(u16),
}

} // verus!
