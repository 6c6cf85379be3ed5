//! One signed instruction at a time: resolve the records it names, then run
//! the operation.

use crate::address::{entry_address, event_address, Address};
use crate::context::{CloseEvent, InitializeEvent, MarkInvalid, MarkValid, RegisterWallet};
use crate::error::ErrorCode;
use crate::operations::{
    close_event, close_event_records, close_event_result, initialize_event,
    initialize_event_records, initialize_event_result, mark_invalid, mark_records, mark_result,
    mark_valid, register_wallet, register_wallet_records, register_wallet_result,
};
use crate::registry::{has_entry, has_event, Records, Registry};
use crate::state::{requirements_view, Requirement, MAX_EVENT_ID_LEN};
use vstd::prelude::*;
use vstd::utf8::encode_utf8;

verus! {

/// An operation with its arguments and the records it refers to.
#[derive(Debug)]
pub enum Instruction {
    /// Create the event named `event_id`.
    InitializeEvent { event_id: String, max_winners: u32, requirements: Vec<Requirement> },
    /// Register the signer for the event at `event`.
    RegisterWallet { event: Address },
    /// Mark the entry at `entry` valid under the event at `event`.
    MarkValid { event: Address, entry: Address },
    /// Mark the entry at `entry` invalid under the event at `event`.
    MarkInvalid { event: Address, entry: Address },
    /// Close the event at `event`.
    CloseEvent { event: Address },
}

/// How an instruction signed by `signer` ends: `None` where the records it
/// names cannot be resolved (the derivation finds no address, or a record it
/// refers to is not there), else the result of the operation. An event id
/// over its budget is refused before any address is derived.
pub open spec fn process_result(
    program: Seq<u8>,
    records: Records,
    signer: Seq<u8>,
    instruction: Instruction,
) -> Option<Result<(), ErrorCode>> {
    match instruction {
        Instruction::InitializeEvent { event_id, max_winners, requirements } => {
            if encode_utf8(event_id@).len() > MAX_EVENT_ID_LEN {
                Some(Err(ErrorCode::SerializedSizeExceeded))
            } else {
                match event_address(program, event_id@) {
                    Some((event, bump)) => Some(
                        initialize_event_result(
                            records,
                            event,
                            event_id@,
                            requirements_view(requirements@),
                        ),
                    ),
                    None => None,
                }
            }
        },
        Instruction::RegisterWallet { event } => {
            match entry_address(program, event@, signer) {
                Some((entry, bump)) if has_event(records, event@) => Some(
                    register_wallet_result(records, event@, entry),
                ),
                _ => None,
            }
        },
        Instruction::MarkValid { event, entry } | Instruction::MarkInvalid { event, entry } => {
            if has_event(records, event@) && has_entry(records, entry@) {
                Some(mark_result(records, signer, event@, entry@))
            } else {
                None
            }
        },
        Instruction::CloseEvent { event } => {
            if has_event(records, event@) {
                Some(close_event_result(records, signer, event@))
            } else {
                None
            }
        },
    }
}

/// The records after an instruction signed by `signer`: those that the
/// operation leaves, and the same as before where the records it names
/// cannot be resolved.
pub open spec fn process_records(
    program: Seq<u8>,
    records: Records,
    signer: Seq<u8>,
    instruction: Instruction,
) -> Records {
    if process_result(program, records, signer, instruction) != Some(Ok::<(), ErrorCode>(())) {
        records
    } else {
        match instruction {
            Instruction::InitializeEvent { event_id, max_winners, requirements } => {
                let (event, bump) = event_address(program, event_id@).unwrap();
                initialize_event_records(
                    records,
                    signer,
                    event,
                    bump,
                    event_id@,
                    max_winners,
                    requirements_view(requirements@),
                )
            },
            Instruction::RegisterWallet { event } => register_wallet_records(
                records,
                signer,
                event@,
                entry_address(program, event@, signer).unwrap().0,
            ),
            Instruction::MarkValid { event, entry } => mark_records(
                records,
                signer,
                event@,
                entry@,
                true,
            ),
            Instruction::MarkInvalid { event, entry } => mark_records(
                records,
                signer,
                event@,
                entry@,
                false,
            ),
            Instruction::CloseEvent { event } => close_event_records(records, signer, event@),
        }
    }
}

/// Runs one instruction signed by `signer`. `None`, with the registry as it
/// was, where the records that the instruction names cannot be resolved;
/// else the result of the operation.
pub fn process(registry: &mut Registry, signer: Address, instruction: Instruction) -> (r: Option<
    Result<(), ErrorCode>,
>)
    requires
        old(registry).wf(),
    ensures
        final(registry).wf(),
        final(registry)@.program == old(registry)@.program,
        r == process_result(old(registry)@.program, old(registry)@.records, signer@, instruction),
        final(registry)@.records == process_records(
            old(registry)@.program,
            old(registry)@.records,
            signer@,
            instruction,
        ),
{
    match instruction {
        Instruction::InitializeEvent { event_id, max_winners, requirements } => {
            match InitializeEvent::try_accounts(&registry.program_id(), signer, event_id.as_str()) {
                Some(Ok(ctx)) => Some(
                    initialize_event(registry, &ctx, event_id, max_winners, requirements),
                ),
                Some(Err(error)) => Some(Err(error)),
                None => None,
            }
        },
        Instruction::RegisterWallet { event } => {
            match RegisterWallet::try_accounts(registry, signer, event) {
                Some(ctx) => Some(register_wallet(registry, &ctx)),
                None => None,
            }
        },
        Instruction::MarkValid { event, entry } => {
            match MarkValid::try_accounts(registry, signer, event, entry) {
                Some(ctx) => Some(mark_valid(registry, &ctx)),
                None => None,
            }
        },
        Instruction::MarkInvalid { event, entry } => {
            match MarkInvalid::try_accounts(registry, signer, event, entry) {
                Some(ctx) => Some(mark_invalid(registry, &ctx)),
                None => None,
            }
        },
        Instruction::CloseEvent { event } => {
            match CloseEvent::try_accounts(registry, signer, event) {
                Some(ctx) => Some(close_event(registry, &ctx)),
                None => None,
            }
        },
    }
}

} // verus!
