use vstd::prelude::*;

verus! {

/// The failure kinds of the session registry and its command surface.
///
/// Reason strings carry the message of the underlying hardware or channel
/// failure; the variant tells callers programmatically what went wrong.
#[derive(Debug, Clone)]
pub enum SerialError {
    /// The operation targets an identifier with no open session.
    NotFound,
    /// An open targets an identifier that already has a session.
    AlreadyOpen,
    /// The hardware-level open failed; the reason is embedded.
    OpenFailed(String),
    /// A read could not be started; the reason is embedded.
    ReadFailed(String),
    /// An I/O error occurred while writing; the reason is embedded.
    WriteFailed(String),
    /// A cancellation signal could not be delivered.
    CancelFailed,
    /// Exclusive access to the registry could not be obtained.
    LockFailure,
}

} // verus!
