use vstd::prelude::*;

verus! {

/// The failures an extraction request can end in. Every one is terminal for
/// the request; none is retried.
#[derive(Debug)]
pub enum ExtractError {
    /// The archive name's extension is not a recognized format.
    UnsupportedFormat(String),
    /// The extension is recognized but extraction for it is not implemented.
    PlannedNotImplemented(String),
    /// The destination hint carries a file extension, so it cannot name a directory.
    InvalidDestination,
    /// The archive path does not name an existing regular file.
    ArchiveNotFound,
    /// A nested pipeline found no inner archive member to go on with.
    NestedArchiveMissingMember,
    /// An underlying read, decode or write failed; the payload describes it.
    IoFailure(String),
}

} // verus!
