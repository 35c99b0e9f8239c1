use vstd::prelude::*;

verus! {

/// Every way an upload attempt can fail.
#[derive(Debug)]
pub enum YunPanError {
    /// A local file could not be opened, sought, read or written.
    Io(String),
    /// The transport failed (connection, timeout).
    Network(String),
    /// The remote service answered with a failure status or an unreadable
    /// body; the raw body is kept for diagnosis.
    Protocol(String),
    /// The remote service rejected the upload of slice `seq` (a non-zero
    /// error code or an unreadable reply); the raw body is kept.
    SliceRejected { seq: u64, raw: String },
    /// The digest echoed by the remote service differs from the local one.
    IntegrityMismatch { seq: u64, expected: String, received: String },
    /// The nominal slice size is below the protocol's floor.
    Configuration { slice_size: u64 },
    /// No slice carries this sequence number, so the plan has a gap.
    MissingSlice { seq: u64 },
    /// End of file came before a slice or range was read in full.
    TruncatedRead { seq: u64, read: u64, expected: u64 },
}

} // verus!
