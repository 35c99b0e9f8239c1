//! Verified core of a sliced, content-addressed file uploader: the slice plan,
//! streaming range digests, the checks on the remote service's replies, and
//! the upload protocol as a state machine.
pub mod coordinator;
pub mod digest;
pub mod error;
pub mod protocol;
pub mod slice;
