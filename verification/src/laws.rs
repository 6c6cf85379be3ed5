//! What holds of the operations, whatever the records and the arguments.

use crate::address::{entry_address, event_address};
use crate::error::ErrorCode;
use crate::operations::{
    close_event_records, close_event_result, initialize_event_records, initialize_event_result,
    mark_records, mark_result, register_wallet_records, register_wallet_result,
};
use crate::processor::{process_records, process_result, Instruction};
use crate::registry::{
    entry_at, event_at, has_entry, has_event, valid_record, valid_records, RecordView, Records,
    Registry,
};
use crate::state::{
    requirements_view, within_budget, EntryView, EventView, Requirement, RequirementView,
    ENTRY_SPACE, EVENT_SPACE, MAX_EVENT_ID_LEN,
};
use vstd::utf8::encode_utf8;
use vstd::prelude::*;

verus! {

/// Creating an event under an id and requirements within their budgets, by
/// an instruction: where the address derived from the id is free, the
/// instruction succeeds and the event is found at that address right after,
/// active, with the signer as its authority and the id, cap, requirements
/// and bump seed that it was created with; where a record is at that
/// address, it is refused with `RecordAlreadyExists`. Only where the
/// derivation finds no address for the id is the instruction not run.
pub proof fn law_initialized_event_is_found(
    program: Seq<u8>,
    records: Records,
    signer: Seq<u8>,
    event_id: String,
    max_winners: u32,
    requirements: Vec<Requirement>,
)
    requires
        within_budget(event_id@, requirements_view(requirements@)),
    ensures
        ({
            let instruction = Instruction::InitializeEvent { event_id, max_winners, requirements };
            let result = process_result(program, records, signer, instruction);
            let after = process_records(program, records, signer, instruction);
            match event_address(program, event_id@) {
                Some((event, bump)) => if records.dom().contains(event) {
                    &&& result == Some(Err::<(), ErrorCode>(ErrorCode::RecordAlreadyExists))
                    &&& after == records
                } else {
                    &&& result == Some(Ok::<(), ErrorCode>(()))
                    &&& has_event(after, event)
                    &&& event_at(after, event) == (EventView {
                        authority: signer,
                        event_id: event_id@,
                        max_winners,
                        requirements: requirements_view(requirements@),
                        active: true,
                        bump,
                    })
                    &&& valid_record(program, after, event)
                },
                None => result.is_none() && after == records,
            }
        }),
{
}

/// An id over its budget is refused with `SerializedSizeExceeded`, whatever
/// the records hold and whatever else the instruction says, and nothing
/// changes; so are requirements over their budget, where the id is within
/// its budget and its address is free.
pub proof fn law_over_budget_is_refused(
    program: Seq<u8>,
    records: Records,
    signer: Seq<u8>,
    event: Seq<u8>,
    bump: u8,
    event_id: String,
    max_winners: u32,
    requirements: Vec<Requirement>,
)
    ensures
        ({
            let instruction = Instruction::InitializeEvent { event_id, max_winners, requirements };
            let result = process_result(program, records, signer, instruction);
            let after = process_records(program, records, signer, instruction);
            let refused = Err::<(), ErrorCode>(ErrorCode::SerializedSizeExceeded);
            let listed = requirements_view(requirements@);
            &&& encode_utf8(event_id@).len() > MAX_EVENT_ID_LEN ==> {
                &&& result == Some(refused)
                &&& after == records
                &&& initialize_event_result(records, event, event_id@, listed) == refused
            }
            &&& !within_budget(event_id@, listed) && !records.dom().contains(event) ==> {
                &&& initialize_event_result(records, event, event_id@, listed) == refused
                &&& initialize_event_records(
                    records,
                    signer,
                    event,
                    bump,
                    event_id@,
                    max_winners,
                    listed,
                ) == records
            }
            &&& !within_budget(event_id@, listed) && event_address(program, event_id@).is_some()
                && !records.dom().contains(event_address(program, event_id@).unwrap().0) ==> {
                &&& result == Some(refused)
                &&& after == records
            }
        }),
{
}

/// Once an event has been created under an id, creating one under the same
/// id again is refused with `RecordAlreadyExists`, whoever signs and whatever
/// the other arguments, and leaves the records, the first event among them,
/// as they were.
pub proof fn law_second_initialize_is_refused(
    program: Seq<u8>,
    records: Records,
    event_id: Seq<char>,
    first_authority: Seq<u8>,
    first_max_winners: u32,
    first_requirements: Seq<RequirementView>,
    second_authority: Seq<u8>,
    second_max_winners: u32,
    second_requirements: Seq<RequirementView>,
)
    requires
        event_address(program, event_id).is_some(),
        initialize_event_result(
            records,
            event_address(program, event_id).unwrap().0,
            event_id,
            first_requirements,
        ).is_ok(),
    ensures
        ({
            let (event, bump) = event_address(program, event_id).unwrap();
            let after = initialize_event_records(
                records,
                first_authority,
                event,
                bump,
                event_id,
                first_max_winners,
                first_requirements,
            );
            &&& initialize_event_result(after, event, event_id, second_requirements) == Err::<
                (),
                ErrorCode,
            >(ErrorCode::RecordAlreadyExists)
            &&& initialize_event_records(
                after,
                second_authority,
                event,
                bump,
                event_id,
                second_max_winners,
                second_requirements,
            ) == after
            &&& event_at(after, event) == EventView::opened(
                first_authority,
                event_id,
                first_max_winners,
                first_requirements,
                bump,
            )
        }),
{
}

/// A registry holds at most one event per id.
pub proof fn law_one_event_per_id(registry: Registry, first: Seq<u8>, second: Seq<u8>)
    requires
        registry.wf(),
        has_event(registry@.records, first),
        has_event(registry@.records, second),
        event_at(registry@.records, first).event_id == event_at(registry@.records, second).event_id,
    ensures
        first == second,
{
    registry.lemma_wf();
    assert(valid_record(registry@.program, registry@.records, first));
    assert(valid_record(registry@.program, registry@.records, second));
}

/// Registering for a closed event is refused with `EventNotActive` and
/// creates no record.
pub proof fn law_closed_event_refuses_registration(
    records: Records,
    wallet: Seq<u8>,
    event: Seq<u8>,
    entry: Seq<u8>,
)
    requires
        has_event(records, event),
        !event_at(records, event).active,
    ensures
        register_wallet_result(records, event, entry) == Err::<(), ErrorCode>(
            ErrorCode::EventNotActive,
        ),
        register_wallet_records(records, wallet, event, entry) == records,
{
}

/// After its authority has closed an event, the event is there and not
/// active, so that every registration for it is refused.
pub proof fn law_close_ends_registration(
    records: Records,
    authority: Seq<u8>,
    wallet: Seq<u8>,
    event: Seq<u8>,
    entry: Seq<u8>,
)
    requires
        has_event(records, event),
        close_event_result(records, authority, event).is_ok(),
    ensures
        ({
            let after = close_event_records(records, authority, event);
            &&& has_event(after, event)
            &&& event_at(after, event) == event_at(records, event).closed()
            &&& register_wallet_result(after, event, entry) == Err::<(), ErrorCode>(
                ErrorCode::EventNotActive,
            )
            &&& register_wallet_records(after, wallet, event, entry) == after
        }),
{
}

/// Closing an event leaves every entry as it was, and the authority may
/// still set the outcome of each entry of the event.
pub proof fn law_close_keeps_entries(
    records: Records,
    authority: Seq<u8>,
    event: Seq<u8>,
    entry: Seq<u8>,
)
    requires
        has_event(records, event),
        has_entry(records, entry),
    ensures
        ({
            let after = close_event_records(records, authority, event);
            &&& has_entry(after, entry)
            &&& entry_at(after, entry) == entry_at(records, entry)
            &&& mark_result(after, authority, event, entry) == mark_result(
                records,
                authority,
                event,
                entry,
            )
        }),
{
}

/// A registry holds at most one entry per event and wallet, and the event
/// of every entry is in the registry.
pub proof fn law_one_entry_per_wallet(registry: Registry, first: Seq<u8>, second: Seq<u8>)
    requires
        registry.wf(),
        has_entry(registry@.records, first),
        has_entry(registry@.records, second),
        entry_at(registry@.records, first).event == entry_at(registry@.records, second).event,
        entry_at(registry@.records, first).wallet == entry_at(registry@.records, second).wallet,
    ensures
        first == second,
        has_event(registry@.records, entry_at(registry@.records, first).event),
{
    registry.lemma_wf();
    assert(valid_record(registry@.program, registry@.records, first));
    assert(valid_record(registry@.program, registry@.records, second));
}

/// Once a wallet is registered for an event, registering it again for that
/// event is refused with `WalletAlreadyRegistered` and leaves the records as
/// they were.
pub proof fn law_second_registration_is_refused(
    program: Seq<u8>,
    records: Records,
    wallet: Seq<u8>,
    event: Seq<u8>,
)
    requires
        has_event(records, event),
        entry_address(program, event, wallet).is_some(),
        register_wallet_result(
            records,
            event,
            entry_address(program, event, wallet).unwrap().0,
        ).is_ok(),
    ensures
        ({
            let entry = entry_address(program, event, wallet).unwrap().0;
            let after = register_wallet_records(records, wallet, event, entry);
            &&& entry_at(after, entry) == EntryView::registered(event, wallet)
            &&& register_wallet_result(after, event, entry) == Err::<(), ErrorCode>(
                ErrorCode::WalletAlreadyRegistered,
            )
            &&& register_wallet_records(after, wallet, event, entry) == after
        }),
{
}

/// Marking an entry valid and then invalid leaves it invalid; both
/// operations succeed.
pub proof fn law_valid_then_invalid(
    records: Records,
    authority: Seq<u8>,
    event: Seq<u8>,
    entry: Seq<u8>,
)
    requires
        has_event(records, event),
        has_entry(records, entry),
        mark_result(records, authority, event, entry).is_ok(),
    ensures
        ({
            let marked = mark_records(records, authority, event, entry, true);
            let unmarked = mark_records(marked, authority, event, entry, false);
            &&& entry_at(marked, entry).valid
            &&& mark_result(marked, authority, event, entry).is_ok()
            &&& has_entry(unmarked, entry)
            &&& !entry_at(unmarked, entry).valid
            &&& entry_at(unmarked, entry) == entry_at(records, entry).marked(false)
        }),
{
}

/// Setting the outcome that an entry already has succeeds and changes
/// nothing: marking valid twice leaves the entry valid, marking invalid
/// twice leaves it invalid.
pub proof fn law_mark_is_idempotent(
    records: Records,
    authority: Seq<u8>,
    event: Seq<u8>,
    entry: Seq<u8>,
    valid: bool,
)
    requires
        has_event(records, event),
        has_entry(records, entry),
        mark_result(records, authority, event, entry).is_ok(),
    ensures
        ({
            let once = mark_records(records, authority, event, entry, valid);
            let twice = mark_records(once, authority, event, entry, valid);
            &&& mark_result(once, authority, event, entry).is_ok()
            &&& twice == once
            &&& has_entry(twice, entry)
            &&& entry_at(twice, entry).valid == valid
        }),
{
    let once = mark_records(records, authority, event, entry, valid);
    let twice = mark_records(once, authority, event, entry, valid);
    assert(twice =~= once);
}

/// A signer who is not the authority of the event cannot set the outcome of
/// an entry nor close the event: each attempt is refused with
/// `InvalidAuthority` and leaves the records as they were.
pub proof fn law_stranger_is_refused(
    records: Records,
    signer: Seq<u8>,
    event: Seq<u8>,
    entry: Seq<u8>,
    valid: bool,
)
    requires
        has_event(records, event),
        event_at(records, event).authority != signer,
    ensures
        mark_result(records, signer, event, entry) == Err::<(), ErrorCode>(
            ErrorCode::InvalidAuthority,
        ),
        mark_records(records, signer, event, entry, valid) == records,
        close_event_result(records, signer, event) == Err::<(), ErrorCode>(
            ErrorCode::InvalidAuthority,
        ),
        close_event_records(records, signer, event) == records,
{
}

/// No instruction deletes a record or reopens an event, and none changes
/// what identifies a record: an event keeps its authority, id, cap,
/// requirements and bump seed, and stays closed once closed; an entry keeps
/// its event, its wallet and its verified flag.
pub proof fn law_records_are_kept(
    program: Seq<u8>,
    records: Records,
    signer: Seq<u8>,
    instruction: Instruction,
    address: Seq<u8>,
)
    requires
        records.dom().contains(address),
    ensures
        ({
            let after = process_records(program, records, signer, instruction);
            &&& after.dom().contains(address)
            &&& match records[address] {
                RecordView::Event(event) => {
                    &&& has_event(after, address)
                    &&& event_at(after, address) == event || event_at(after, address)
                        == event.closed()
                },
                RecordView::Entry(entry) => {
                    &&& has_entry(after, address)
                    &&& entry_at(after, address) == entry.marked(entry_at(after, address).valid)
                },
            }
        }),
{
}

/// No instruction breaks the validity of the records: after it, as before,
/// every event lives at the address derived from its id and every entry at
/// the address derived from its event and wallet, and every entry belongs to
/// an event that is there.
pub proof fn law_valid_records_are_kept(
    program: Seq<u8>,
    records: Records,
    signer: Seq<u8>,
    instruction: Instruction,
)
    requires
        valid_records(program, records),
    ensures
        valid_records(program, process_records(program, records, signer, instruction)),
{
    let after = process_records(program, records, signer, instruction);
    assert forall|address: Seq<u8>| #[trigger] after.dom().contains(address) implies valid_record(
        program,
        after,
        address,
    ) by {
        if records.dom().contains(address) {
            assert(valid_record(program, records, address));
        }
    }
}

/// Where no record is, every record is valid.
pub proof fn law_no_records_are_valid(program: Seq<u8>)
    ensures
        valid_records(program, Records::empty()),
{
}

/// A record never outgrows the space reserved for it: an event within its
/// budgets serializes to no more than `EVENT_SPACE` bytes, and so does every
/// event of a registry; an entry takes `ENTRY_SPACE` bytes.
pub proof fn law_records_fit_their_space(registry: Registry, event: EventView, address: Seq<u8>)
    requires
        registry.wf(),
    ensures
        within_budget(event.event_id, event.requirements) ==> event.serialized_len()
            <= EVENT_SPACE,
        has_event(registry@.records, address) ==> event_at(registry@.records, address).serialized_len()
            <= EVENT_SPACE,
        EntryView::serialized_len() == ENTRY_SPACE,
{
    registry.lemma_wf();
    if has_event(registry@.records, address) {
        assert(valid_record(registry@.program, registry@.records, address));
    }
}

} // verus!
