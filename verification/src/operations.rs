//! The five operations, each as a function of the records before it to its
//! result and the records after it.

use crate::address::Address;
use crate::context::{CloseEvent, InitializeEvent, MarkInvalid, MarkValid, RegisterWallet};
use crate::error::ErrorCode;
use crate::guards::{
    admit_close, admit_event, admit_mark, admit_registration, close_decision,
    initialize_decision, mark_decision, registration_decision,
};
use crate::registry::{
    entry_at, event_at, has_entry, has_event, occupant_at, Record, RecordView, Records, Registry,
};
use crate::state::{
    requirements_view, EntryState, EntryView, EventState, EventView, Requirement, RequirementView,
};
use vstd::prelude::*;

verus! {

/// How creating an event at `event` ends: as `initialize_decision` says of
/// the id, of whether `records` holds a record at `event`, and of the
/// requirements.
pub open spec fn initialize_event_result(
    records: Records,
    event: Seq<u8>,
    event_id: Seq<char>,
    requirements: Seq<RequirementView>,
) -> Result<(), ErrorCode> {
    initialize_decision(event_id, records.dom().contains(event), requirements)
}

/// The records after creating an event at `event`: with the new event,
/// active and owned by `authority`, where the creation succeeds, and
/// unchanged where it is refused.
pub open spec fn initialize_event_records(
    records: Records,
    authority: Seq<u8>,
    event: Seq<u8>,
    bump: u8,
    event_id: Seq<char>,
    max_winners: u32,
    requirements: Seq<RequirementView>,
) -> Records {
    if initialize_event_result(records, event, event_id, requirements).is_ok() {
        records.insert(
            event,
            RecordView::Event(
                EventView::opened(authority, event_id, max_winners, requirements, bump),
            ),
        )
    } else {
        records
    }
}

/// How registering an entry at `entry` for the event at `event` ends: as
/// `registration_decision` says of the event and of what `records` holds at
/// `entry`.
pub open spec fn register_wallet_result(records: Records, event: Seq<u8>, entry: Seq<u8>) -> Result<
    (),
    ErrorCode,
> {
    registration_decision(event_at(records, event), occupant_at(records, entry))
}

/// The records after registering `wallet` for the event at `event`: with
/// the new entry, verified and not yet valid, where the registration
/// succeeds, and unchanged where it is refused.
pub open spec fn register_wallet_records(
    records: Records,
    wallet: Seq<u8>,
    event: Seq<u8>,
    entry: Seq<u8>,
) -> Records {
    if register_wallet_result(records, event, entry).is_ok() {
        records.insert(entry, RecordView::Entry(EntryView::registered(event, wallet)))
    } else {
        records
    }
}

/// How setting the outcome of the entry at `entry` ends: as `mark_decision`
/// says of the event at `event`, the entry and the signer.
pub open spec fn mark_result(
    records: Records,
    authority: Seq<u8>,
    event: Seq<u8>,
    entry: Seq<u8>,
) -> Result<(), ErrorCode> {
    mark_decision(event_at(records, event), event, entry_at(records, entry), authority)
}

/// The records after setting the outcome of the entry at `entry` to
/// `valid`: only the valid flag of that entry changes, and nothing where the
/// operation is refused.
pub open spec fn mark_records(
    records: Records,
    authority: Seq<u8>,
    event: Seq<u8>,
    entry: Seq<u8>,
    valid: bool,
) -> Records {
    if mark_result(records, authority, event, entry).is_ok() {
        records.insert(entry, RecordView::Entry(entry_at(records, entry).marked(valid)))
    } else {
        records
    }
}

/// How closing the event at `event` ends: as `close_decision` says of the
/// event and the signer.
pub open spec fn close_event_result(records: Records, authority: Seq<u8>, event: Seq<u8>) -> Result<
    (),
    ErrorCode,
> {
    close_decision(event_at(records, event), authority)
}

/// The records after closing the event at `event`: only the active flag of
/// that event changes, and nothing where the operation is refused.
pub open spec fn close_event_records(records: Records, authority: Seq<u8>, event: Seq<u8>) -> Records {
    if close_event_result(records, authority, event).is_ok() {
        records.insert(event, RecordView::Event(event_at(records, event).closed()))
    } else {
        records
    }
}

/// Creates the event named `event_id` with the signer as its authority,
/// open for registration.
pub fn initialize_event(
    registry: &mut Registry,
    ctx: &InitializeEvent,
    event_id: String,
    max_winners: u32,
    requirements: Vec<Requirement>,
) -> (r: Result<(), ErrorCode>)
    requires
        old(registry).wf(),
        ctx.resolved(old(registry)@.program, event_id@),
    ensures
        final(registry).wf(),
        final(registry)@.program == old(registry)@.program,
        r == initialize_event_result(
            old(registry)@.records,
            ctx.event@,
            event_id@,
            requirements_view(requirements@),
        ),
        final(registry)@.records == initialize_event_records(
            old(registry)@.records,
            ctx.authority@,
            ctx.event@,
            ctx.bump,
            event_id@,
            max_winners,
            requirements_view(requirements@),
        ),
{
    let occupied = registry.contains(&ctx.event);
    if let Err(error) = admit_event(event_id.as_str(), occupied, &requirements) {
        return Err(error);
    }
    match EventState::open(ctx.authority, event_id, max_winners, requirements, ctx.bump) {
        Ok(event) => {
            registry.insert(ctx.event, Record::Event(event));
            Ok(())
        },
        Err(error) => Err(error),
    }
}

/// Registers the signing wallet for the event, if the event is open and the
/// wallet has no entry for it yet.
pub fn register_wallet(registry: &mut Registry, ctx: &RegisterWallet) -> (r: Result<
    (),
    ErrorCode,
>)
    requires
        old(registry).wf(),
        ctx.resolved(old(registry)@.program, old(registry)@.records),
    ensures
        final(registry).wf(),
        final(registry)@.program == old(registry)@.program,
        r == register_wallet_result(old(registry)@.records, ctx.event@, ctx.entry@),
        final(registry)@.records == register_wallet_records(
            old(registry)@.records,
            ctx.wallet@,
            ctx.event@,
            ctx.entry@,
        ),
{
    let occupant = registry.occupant(&ctx.entry);
    if let Err(error) = admit_registration(registry.event(&ctx.event).unwrap(), occupant) {
        return Err(error);
    }
    registry.insert(ctx.entry, Record::Entry(EntryState::register(ctx.event, ctx.wallet)));
    Ok(())
}

/// Sets the outcome of an entry, if the signer is the authority of the event
/// and the entry belongs to it.
fn mark(
    registry: &mut Registry,
    authority: &Address,
    event: &Address,
    entry: &Address,
    valid: bool,
) -> (r: Result<(), ErrorCode>)
    requires
        old(registry).wf(),
        has_entry(old(registry)@.records, entry@),
        has_event(old(registry)@.records, event@),
    ensures
        final(registry).wf(),
        final(registry)@.program == old(registry)@.program,
        r == mark_result(old(registry)@.records, authority@, event@, entry@),
        final(registry)@.records == mark_records(old(registry)@.records, authority@, event@, entry@, valid),
{
    let decision = admit_mark(
        registry.event(event).unwrap(),
        event,
        registry.entry(entry).unwrap(),
        authority,
    );
    if let Err(error) = decision {
        return Err(error);
    }
    registry.set_valid(entry, valid);
    Ok(())
}

/// Marks the entry valid: it passed the requirements of the event. Only the
/// authority of the event may do so, before or after the event is closed.
pub fn mark_valid(registry: &mut Registry, ctx: &MarkValid) -> (r: Result<(), ErrorCode>)
    requires
        old(registry).wf(),
        ctx.resolved(old(registry)@.records),
    ensures
        final(registry).wf(),
        final(registry)@.program == old(registry)@.program,
        r == mark_result(old(registry)@.records, ctx.authority@, ctx.event@, ctx.entry@),
        final(registry)@.records == mark_records(
            old(registry)@.records,
            ctx.authority@,
            ctx.event@,
            ctx.entry@,
            true,
        ),
{
    mark(registry, &ctx.authority, &ctx.event, &ctx.entry, true)
}

/// Marks the entry invalid: it failed the requirements of the event. Only
/// the authority of the event may do so, before or after the event is closed.
pub fn mark_invalid(registry: &mut Registry, ctx: &MarkInvalid) -> (r: Result<(), ErrorCode>)
    requires
        old(registry).wf(),
        ctx.resolved(old(registry)@.records),
    ensures
        final(registry).wf(),
        final(registry)@.program == old(registry)@.program,
        r == mark_result(old(registry)@.records, ctx.authority@, ctx.event@, ctx.entry@),
        final(registry)@.records == mark_records(
            old(registry)@.records,
            ctx.authority@,
            ctx.event@,
            ctx.entry@,
            false,
        ),
{
    mark(registry, &ctx.authority, &ctx.event, &ctx.entry, false)
}

/// Closes the event to new registrations. Only its authority may do so.
/// The entries of the event stay as they are.
pub fn close_event(registry: &mut Registry, ctx: &CloseEvent) -> (r: Result<(), ErrorCode>)
    requires
        old(registry).wf(),
        ctx.resolved(old(registry)@.records),
    ensures
        final(registry).wf(),
        final(registry)@.program == old(registry)@.program,
        r == close_event_result(old(registry)@.records, ctx.authority@, ctx.event@),
        final(registry)@.records == close_event_records(old(registry)@.records, ctx.authority@, ctx.event@),
{
    if let Err(error) = admit_close(registry.event(&ctx.event).unwrap(), &ctx.authority) {
        return Err(error);
    }
    registry.set_closed(&ctx.event);
    Ok(())
}

} // verus!
