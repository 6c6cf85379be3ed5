//! The reasons for which an operation is refused.

use vstd::prelude::*;

verus! {

/// Why an operation failed. A failed operation changes nothing.
#[derive(Clone, Copy, Debug, PartialEq, Eq, Structural)]
pub enum ErrorCode {
    /// A registration was attempted against a closed event.
    EventNotActive,
    /// The wallet already has an entry for the event.
    WalletAlreadyRegistered,
    /// The signer is not the authority of the event.
    InvalidAuthority,
    /// A record already occupies the address of the record to create.
    RecordAlreadyExists,
    /// The event id or the requirements exceed their byte budget.
    SerializedSizeExceeded,
    /// The entry does not belong to the event it was named with.
    EntryEventMismatch,
}

} // verus!
