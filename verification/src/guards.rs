//! What each operation admits and what it refuses, decided on the records
//! that it reads. Where several refusals apply, the first one named is the
//! one returned.

use crate::address::Address;
use crate::error::ErrorCode;
use crate::state::{
    byte_len, requirements_fit, requirements_len, requirements_view, EntryState, EntryView,
    EventState, EventView, Requirement, RequirementView, MAX_EVENT_ID_LEN, MAX_REQUIREMENTS_LEN,
};
use vstd::prelude::*;
use vstd::utf8::encode_utf8;

verus! {

/// What is found at an address where a record is to be created.
#[derive(Clone, Copy, Debug, PartialEq, Eq, Structural)]
pub enum Occupant {
    /// No record.
    Nothing,
    /// An entry.
    Entry,
    /// A record of another kind.
    Other,
}

/// How creating an event ends: refused with `SerializedSizeExceeded` where
/// the id exceeds its budget, else with `RecordAlreadyExists` where a record
/// occupies its address, else with `SerializedSizeExceeded` where the
/// requirements exceed their budget.
pub open spec fn initialize_decision(
    event_id: Seq<char>,
    occupied: bool,
    requirements: Seq<RequirementView>,
) -> Result<(), ErrorCode> {
    if encode_utf8(event_id).len() > MAX_EVENT_ID_LEN {
        Err(ErrorCode::SerializedSizeExceeded)
    } else if occupied {
        Err(ErrorCode::RecordAlreadyExists)
    } else if requirements_len(requirements) > MAX_REQUIREMENTS_LEN {
        Err(ErrorCode::SerializedSizeExceeded)
    } else {
        Ok(())
    }
}

/// How registering for `event` ends: refused with `EventNotActive` where the
/// event is closed, else with `WalletAlreadyRegistered` where an entry
/// occupies the address of the new entry, else with `RecordAlreadyExists`
/// where another record does.
pub open spec fn registration_decision(event: EventView, occupant: Occupant) -> Result<
    (),
    ErrorCode,
> {
    if !event.active {
        Err(ErrorCode::EventNotActive)
    } else if occupant == Occupant::Entry {
        Err(ErrorCode::WalletAlreadyRegistered)
    } else if occupant == Occupant::Other {
        Err(ErrorCode::RecordAlreadyExists)
    } else {
        Ok(())
    }
}

/// How setting the outcome of `entry` under the event at `event_address`
/// ends: refused with `InvalidAuthority` where the signer is not the
/// authority of the event, else with `EntryEventMismatch` where the entry
/// belongs to another event.
pub open spec fn mark_decision(
    event: EventView,
    event_address: Seq<u8>,
    entry: EntryView,
    signer: Seq<u8>,
) -> Result<(), ErrorCode> {
    if event.authority != signer {
        Err(ErrorCode::InvalidAuthority)
    } else if entry.event != event_address {
        Err(ErrorCode::EntryEventMismatch)
    } else {
        Ok(())
    }
}

/// How closing `event` ends: refused with `InvalidAuthority` where the
/// signer is not its authority.
pub open spec fn close_decision(event: EventView, signer: Seq<u8>) -> Result<(), ErrorCode> {
    if event.authority != signer {
        Err(ErrorCode::InvalidAuthority)
    } else {
        Ok(())
    }
}

/// Decides whether an event may be created under `event_id` with the given
/// requirements, `occupied` telling whether a record is at its address. For
/// an id over its budget the answer does not depend on `occupied`.
pub fn admit_event(event_id: &str, occupied: bool, requirements: &Vec<Requirement>) -> (r: Result<
    (),
    ErrorCode,
>)
    ensures
        r == initialize_decision(event_id@, occupied, requirements_view(requirements@)),
{
    if byte_len(event_id) > MAX_EVENT_ID_LEN {
        Err(ErrorCode::SerializedSizeExceeded)
    } else if occupied {
        Err(ErrorCode::RecordAlreadyExists)
    } else if !requirements_fit(requirements) {
        Err(ErrorCode::SerializedSizeExceeded)
    } else {
        Ok(())
    }
}

/// Decides whether a wallet may be registered for `event`, given what is at
/// the address of its entry.
pub fn admit_registration(event: &EventState, occupant: Occupant) -> (r: Result<(), ErrorCode>)
    ensures
        r == registration_decision(event@, occupant),
{
    if !event.active {
        return Err(ErrorCode::EventNotActive);
    }
    match occupant {
        Occupant::Entry => Err(ErrorCode::WalletAlreadyRegistered),
        Occupant::Other => Err(ErrorCode::RecordAlreadyExists),
        Occupant::Nothing => Ok(()),
    }
}

/// Decides whether `signer` may set the outcome of `entry` under the event
/// that lives at `event_address`.
pub fn admit_mark(
    event: &EventState,
    event_address: &Address,
    entry: &EntryState,
    signer: &Address,
) -> (r: Result<(), ErrorCode>)
    ensures
        r == mark_decision(event@, event_address@, entry@, signer@),
{
    if event.authority != *signer {
        Err(ErrorCode::InvalidAuthority)
    } else if entry.event != *event_address {
        Err(ErrorCode::EntryEventMismatch)
    } else {
        Ok(())
    }
}

/// Decides whether `signer` may close `event`.
pub fn admit_close(event: &EventState, signer: &Address) -> (r: Result<(), ErrorCode>)
    ensures
        r == close_decision(event@, signer@),
{
    if event.authority != *signer {
        Err(ErrorCode::InvalidAuthority)
    } else {
        Ok(())
    }
}

} // verus!
