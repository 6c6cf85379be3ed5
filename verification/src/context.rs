//! The records that each operation names, with its signer.

use crate::address::{
    entry_address, event_address, find_entry_address, find_event_address, Address,
};
use crate::error::ErrorCode;
use crate::registry::{has_entry, has_event, Records, Registry};
use crate::state::{byte_len, MAX_EVENT_ID_LEN};
use vstd::prelude::*;
use vstd::utf8::encode_utf8;

verus! {

/// The accounts of `initialize_event`: the signer who becomes the authority,
/// and the address at which the event is to be created, with its bump seed.
#[derive(Clone, Copy, Debug)]
pub struct InitializeEvent {
    pub authority: Address,
    pub event: Address,
    pub bump: u8,
}

/// The accounts of `register_wallet`: the signing wallet, the event, and the
/// address at which the entry is to be created.
#[derive(Clone, Copy, Debug)]
pub struct RegisterWallet {
    pub wallet: Address,
    pub event: Address,
    pub entry: Address,
}

/// The accounts of `mark_valid`: the signer, the event and the entry.
#[derive(Clone, Copy, Debug)]
pub struct MarkValid {
    pub authority: Address,
    pub event: Address,
    pub entry: Address,
}

/// The accounts of `mark_invalid`: the signer, the event and the entry.
#[derive(Clone, Copy, Debug)]
pub struct MarkInvalid {
    pub authority: Address,
    pub event: Address,
    pub entry: Address,
}

/// The accounts of `close_event`: the signer and the event.
#[derive(Clone, Copy, Debug)]
pub struct CloseEvent {
    pub authority: Address,
    pub event: Address,
}

impl InitializeEvent {
    /// Whether the event address and the bump seed are those derived from
    /// `event_id` under the program. Nothing is asked of the accounts of an
    /// id over its budget, under which no event is created.
    pub open spec fn resolved(&self, program: Seq<u8>, event_id: Seq<char>) -> bool {
        encode_utf8(event_id).len() <= MAX_EVENT_ID_LEN ==> event_address(program, event_id)
            == Some((self.event@, self.bump))
    }

    /// What resolving the accounts for `event_id` has to give: the refusal
    /// of an id over its budget, before any address is derived; else the
    /// accounts with the derived address and bump seed; `None` where the
    /// derivation finds no address.
    pub open spec fn is_resolution(
        program: Seq<u8>,
        authority: Address,
        event_id: Seq<char>,
        r: Option<Result<InitializeEvent, ErrorCode>>,
    ) -> bool {
        if encode_utf8(event_id).len() > MAX_EVENT_ID_LEN {
            r == Some(Err::<InitializeEvent, ErrorCode>(ErrorCode::SerializedSizeExceeded))
        } else {
            match event_address(program, event_id) {
                Some((event, bump)) => {
                    &&& r.is_some()
                    &&& r.unwrap().is_ok()
                    &&& r.unwrap().unwrap().authority == authority
                    &&& r.unwrap().unwrap().event@ == event
                    &&& r.unwrap().unwrap().bump == bump
                },
                None => r.is_none(),
            }
        }
    }

    /// Resolves the accounts for creating the event named `event_id` under
    /// the program, signed by `authority`. An id over its budget is refused
    /// with `SerializedSizeExceeded`; `None` where the derivation finds no
    /// address for the id.
    pub fn try_accounts(program_id: &Address, authority: Address, event_id: &str) -> (r: Option<
        Result<InitializeEvent, ErrorCode>,
    >)
        ensures
            InitializeEvent::is_resolution(program_id@, authority, event_id@, r),
            r.is_some() && r.unwrap().is_ok() ==> r.unwrap().unwrap().resolved(
                program_id@,
                event_id@,
            ),
    {
        if byte_len(event_id) > MAX_EVENT_ID_LEN {
            return Some(Err(ErrorCode::SerializedSizeExceeded));
        }
        match find_event_address(program_id, event_id) {
            Some((event, bump)) => Some(Ok(InitializeEvent { authority, event, bump })),
            None => None,
        }
    }
}

impl RegisterWallet {
    /// Whether the event is one that `records` holds and the entry address is
    /// the one derived from the event and the wallet under the program.
    pub open spec fn resolved(&self, program: Seq<u8>, records: Records) -> bool {
        &&& has_event(records, self.event@)
        &&& entry_address(program, self.event@, self.wallet@).is_some()
        &&& entry_address(program, self.event@, self.wallet@).unwrap().0 == self.entry@
    }

    /// Resolves the accounts for registering `wallet` for the event at
    /// `event`. `None` where the registry holds no event there, or the pair
    /// yields no address.
    pub fn try_accounts(registry: &Registry, wallet: Address, event: Address) -> (r: Option<
        RegisterWallet,
    >)
        requires
            registry.wf(),
        ensures
            r.is_some() == (has_event(registry@.records, event@) && entry_address(
                registry@.program,
                event@,
                wallet@,
            ).is_some()),
            r.is_some() ==> r.unwrap().wallet == wallet && r.unwrap().event == event
                && r.unwrap().resolved(registry@.program, registry@.records),
    {
        if registry.event(&event).is_none() {
            return None;
        }
        match find_entry_address(&registry.program_id(), &event, &wallet) {
            Some((entry, _)) => Some(RegisterWallet { wallet, event, entry }),
            None => None,
        }
    }
}

impl MarkValid {
    /// Whether `records` holds the event and the entry.
    pub open spec fn resolved(&self, records: Records) -> bool {
        has_event(records, self.event@) && has_entry(records, self.entry@)
    }

    /// Resolves the accounts for marking the entry at `entry` valid under
    /// the event at `event`. `None` where the registry lacks either record.
    pub fn try_accounts(registry: &Registry, authority: Address, event: Address, entry: Address) -> (r:
        Option<MarkValid>)
        requires
            registry.wf(),
        ensures
            r == if has_event(registry@.records, event@) && has_entry(registry@.records, entry@) {
                Some(MarkValid { authority, event, entry })
            } else {
                None
            },
    {
        if registry.event(&event).is_none() || registry.entry(&entry).is_none() {
            return None;
        }
        Some(MarkValid { authority, event, entry })
    }
}

impl MarkInvalid {
    /// Whether `records` holds the event and the entry.
    pub open spec fn resolved(&self, records: Records) -> bool {
        has_event(records, self.event@) && has_entry(records, self.entry@)
    }

    /// Resolves the accounts for marking the entry at `entry` invalid under
    /// the event at `event`. `None` where the registry lacks either record.
    pub fn try_accounts(registry: &Registry, authority: Address, event: Address, entry: Address) -> (r:
        Option<MarkInvalid>)
        requires
            registry.wf(),
        ensures
            r == if has_event(registry@.records, event@) && has_entry(registry@.records, entry@) {
                Some(MarkInvalid { authority, event, entry })
            } else {
                None
            },
    {
        if registry.event(&event).is_none() || registry.entry(&entry).is_none() {
            return None;
        }
        Some(MarkInvalid { authority, event, entry })
    }
}

impl CloseEvent {
    /// Whether `records` holds the event.
    pub open spec fn resolved(&self, records: Records) -> bool {
        has_event(records, self.event@)
    }

    /// Resolves the accounts for closing the event at `event`. `None` where
    /// the registry holds no event there.
    pub fn try_accounts(registry: &Registry, authority: Address, event: Address) -> (r: Option<
        CloseEvent,
    >)
        requires
            registry.wf(),
        ensures
            r == if has_event(registry@.records, event@) {
                Some(CloseEvent { authority, event })
            } else {
                None
            },
    {
        if registry.event(&event).is_none() {
            return None;
        }
        Some(CloseEvent { authority, event })
    }
}

} // verus!
