//! The two kinds of record and the requirement descriptors of an event.

use crate::address::Address;
use crate::error::ErrorCode;
use vstd::prelude::*;
use vstd::utf8::encode_utf8;

verus! {

/// The most bytes that an event id may have.
pub const MAX_EVENT_ID_LEN: usize = 50;

/// The most bytes that the requirements of an event may serialize to, the
/// length prefix of the list not counted.
pub const MAX_REQUIREMENTS_LEN: usize = 256;

/// The bytes that a length prefix takes.
pub const LEN_PREFIX: usize = 4;

/// The bytes reserved for an event record: authority, prefixed id, cap,
/// prefixed requirements, active flag and bump seed.
pub const EVENT_SPACE: usize = 352;

/// The bytes reserved for an entry record: two handles and two flags.
pub const ENTRY_SPACE: usize = 66;

/// An eligibility descriptor: a type tag and a payload, stored as given and
/// never interpreted.
#[derive(Clone, Debug)]
pub struct Requirement {
    pub requirement_type: String,
    pub config: String,
}

/// A requirement as plain values.
pub struct RequirementView {
    pub requirement_type: Seq<char>,
    pub config: Seq<char>,
}

impl View for Requirement {
    type V = RequirementView;

    open spec fn view(&self) -> RequirementView {
        RequirementView { requirement_type: self.requirement_type@, config: self.config@ }
    }
}

impl RequirementView {
    /// The bytes that the requirement serializes to: each string with its
    /// length prefix.
    pub open spec fn serialized_len(self) -> nat {
        LEN_PREFIX as nat + encode_utf8(self.requirement_type).len() + LEN_PREFIX as nat
            + encode_utf8(self.config).len()
    }
}

/// A list of requirements as plain values.
pub open spec fn requirements_view(requirements: Seq<Requirement>) -> Seq<RequirementView> {
    requirements.map_values(|r: Requirement| r@)
}

/// The bytes that the requirements serialize to, one after the other.
pub open spec fn requirements_len(requirements: Seq<RequirementView>) -> nat
    decreases requirements.len(),
{
    if requirements.len() == 0 {
        0
    } else {
        requirements_len(requirements.drop_last()) + requirements.last().serialized_len()
    }
}

/// Whether an event id and a list of requirements are within their budgets.
pub open spec fn within_budget(event_id: Seq<char>, requirements: Seq<RequirementView>) -> bool {
    encode_utf8(event_id).len() <= MAX_EVENT_ID_LEN && requirements_len(requirements)
        <= MAX_REQUIREMENTS_LEN
}

/// The record of an event: its configuration and whether it is open.
#[derive(Debug)]
pub struct EventState {
    pub authority: Address,
    pub event_id: String,
    pub max_winners: u32,
    pub requirements: Vec<Requirement>,
    pub active: bool,
    pub bump: u8,
}

/// An event record as plain values.
pub struct EventView {
    pub authority: Seq<u8>,
    pub event_id: Seq<char>,
    pub max_winners: u32,
    pub requirements: Seq<RequirementView>,
    pub active: bool,
    pub bump: u8,
}

impl View for EventState {
    type V = EventView;

    open spec fn view(&self) -> EventView {
        EventView {
            authority: self.authority@,
            event_id: self.event_id@,
            max_winners: self.max_winners,
            requirements: requirements_view(self.requirements@),
            active: self.active,
            bump: self.bump,
        }
    }
}

impl EventView {
    /// The event as `authority` opens it: active, with the inputs as given.
    pub open spec fn opened(
        authority: Seq<u8>,
        event_id: Seq<char>,
        max_winners: u32,
        requirements: Seq<RequirementView>,
        bump: u8,
    ) -> EventView {
        EventView { authority, event_id, max_winners, requirements, active: true, bump }
    }

    /// The event once closed: nothing but the active flag changes.
    pub open spec fn closed(self) -> EventView {
        EventView { active: false, ..self }
    }

    /// The bytes that the record serializes to.
    pub open spec fn serialized_len(self) -> nat {
        32 + LEN_PREFIX as nat + encode_utf8(self.event_id).len() + 4 + LEN_PREFIX as nat
            + requirements_len(self.requirements) + 1 + 1
    }
}

/// The record of one wallet's registration for one event.
#[derive(Clone, Copy, Debug)]
pub struct EntryState {
    pub event: Address,
    pub wallet: Address,
    pub verified: bool,
    pub valid: bool,
}

/// An entry record as plain values.
pub struct EntryView {
    pub event: Seq<u8>,
    pub wallet: Seq<u8>,
    pub verified: bool,
    pub valid: bool,
}

impl View for EntryState {
    type V = EntryView;

    open spec fn view(&self) -> EntryView {
        EntryView {
            event: self.event@,
            wallet: self.wallet@,
            verified: self.verified,
            valid: self.valid,
        }
    }
}

impl EntryView {
    /// The entry as `wallet` registers it for `event`: verified, not yet
    /// valid.
    pub open spec fn registered(event: Seq<u8>, wallet: Seq<u8>) -> EntryView {
        EntryView { event, wallet, verified: true, valid: false }
    }

    /// The bytes that an entry serializes to: two handles and two flags.
    pub open spec fn serialized_len() -> nat {
        32 + 32 + 1 + 1
    }

    /// The entry with its outcome set: nothing but the valid flag changes.
    pub open spec fn marked(self, valid: bool) -> EntryView {
        EntryView { valid, ..self }
    }
}

/// The number of bytes of a string.
pub(crate) fn byte_len(s: &str) -> (len: usize)
    ensures
        len == encode_utf8(s@).len(),
{
    s.as_bytes().len()
}

impl Requirement {
    /// The bytes that the requirement serializes to, or `None` where they
    /// are more than `limit`.
    fn serialized_len_within(&self, limit: usize) -> (len: Option<usize>)
        ensures
            len == if self@.serialized_len() <= limit {
                Some(self@.serialized_len() as usize)
            } else {
                None::<usize>
            },
    {
        let a: usize = byte_len(self.requirement_type.as_str());
        let b: usize = byte_len(self.config.as_str());
        if limit < 2 * LEN_PREFIX {
            return None;
        }
        let room: usize = limit - 2 * LEN_PREFIX;
        if a > room {
            return None;
        }
        if b > room - a {
            return None;
        }
        Some(2 * LEN_PREFIX + a + b)
    }
}

/// Whether the requirements serialize to no more than their budget.
pub fn requirements_fit(requirements: &Vec<Requirement>) -> (fit: bool)
    ensures
        fit == (requirements_len(requirements_view(requirements@)) <= MAX_REQUIREMENTS_LEN),
{
    let ghost all = requirements_view(requirements@);
    let mut total: usize = 0;
    let mut i: usize = 0;
    while i < requirements.len()
        invariant
            i <= requirements.len(),
            all == requirements_view(requirements@),
            total == requirements_len(all.take(i as int)),
            total <= MAX_REQUIREMENTS_LEN,
        decreases requirements.len() - i,
    {
        proof {
            assert(all.take(i + 1).drop_last() =~= all.take(i as int));
            assert(all.take(i + 1).last() == requirements@[i as int]@);
            lemma_requirements_len_grows(all, i + 1);
        }
        match requirements[i].serialized_len_within(MAX_REQUIREMENTS_LEN - total) {
            Some(len) => {
                total = total + len;
            },
            None => {
                return false;
            },
        }
        i = i + 1;
    }
    assert(all.take(i as int) =~= all);
    true
}

/// The serialized length of a prefix of the requirements is no more than
/// that of the whole list.
pub proof fn lemma_requirements_len_grows(requirements: Seq<RequirementView>, n: int)
    requires
        0 <= n <= requirements.len(),
    ensures
        requirements_len(requirements.take(n)) <= requirements_len(requirements),
    decreases requirements.len(),
{
    if n == requirements.len() {
        assert(requirements.take(n) =~= requirements);
    } else {
        assert(requirements.drop_last().take(n) =~= requirements.take(n));
        lemma_requirements_len_grows(requirements.drop_last(), n);
    }
}

impl EventState {
    /// The record of a new event, open for registration, or
    /// `SerializedSizeExceeded` where the id or the requirements exceed their
    /// budget.
    pub fn open(
        authority: Address,
        event_id: String,
        max_winners: u32,
        requirements: Vec<Requirement>,
        bump: u8,
    ) -> (r: Result<EventState, ErrorCode>)
        ensures
            within_budget(event_id@, requirements_view(requirements@)) ==> r.is_ok()
                && r.unwrap()@ == EventView::opened(
                authority@,
                event_id@,
                max_winners,
                requirements_view(requirements@),
                bump,
            ),
            !within_budget(event_id@, requirements_view(requirements@)) ==> r == Err::<
                EventState,
                ErrorCode,
            >(ErrorCode::SerializedSizeExceeded),
    {
        if byte_len(event_id.as_str()) > MAX_EVENT_ID_LEN || !requirements_fit(&requirements) {
            return Err(ErrorCode::SerializedSizeExceeded);
        }
        Ok(EventState { authority, event_id, max_winners, requirements, active: true, bump })
    }
}

impl EntryState {
    /// The record of a new entry of `wallet` for the event at `event`.
    pub fn register(event: Address, wallet: Address) -> (entry: EntryState)
        ensures
            entry@ == EntryView::registered(event@, wallet@),
    {
        EntryState { event, wallet, verified: true, valid: false }
    }
}

} // verus!
