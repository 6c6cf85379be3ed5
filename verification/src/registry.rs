//! The store of records, keyed by address.

use crate::address::{entry_address, event_address, Address};
use crate::guards::Occupant;
use crate::state::{within_budget, EntryState, EntryView, EventState, EventView};
use vstd::prelude::*;

verus! {

/// What an address holds: an event or an entry.
#[derive(Debug)]
pub enum Record {
    Event(EventState),
    Entry(EntryState),
}

/// A record as plain values.
pub enum RecordView {
    Event(EventView),
    Entry(EntryView),
}

impl View for Record {
    type V = RecordView;

    open spec fn view(&self) -> RecordView {
        match self {
            Record::Event(event) => RecordView::Event(event@),
            Record::Entry(entry) => RecordView::Entry(entry@),
        }
    }
}

/// The records by address.
pub type Records = Map<Seq<u8>, RecordView>;

/// Whether `records` holds an event at `address`.
pub open spec fn has_event(records: Records, address: Seq<u8>) -> bool {
    records.dom().contains(address) && records[address] is Event
}

/// Whether `records` holds an entry at `address`.
pub open spec fn has_entry(records: Records, address: Seq<u8>) -> bool {
    records.dom().contains(address) && records[address] is Entry
}

/// What `records` holds at `address`, as far as creating a record there
/// goes.
pub open spec fn occupant_at(records: Records, address: Seq<u8>) -> Occupant {
    if !records.dom().contains(address) {
        Occupant::Nothing
    } else if records[address] is Entry {
        Occupant::Entry
    } else {
        Occupant::Other
    }
}

/// The event that `records` holds at `address`.
pub open spec fn event_at(records: Records, address: Seq<u8>) -> EventView
    recommends
        has_event(records, address),
{
    records[address]->Event_0
}

/// The entry that `records` holds at `address`.
pub open spec fn entry_at(records: Records, address: Seq<u8>) -> EntryView
    recommends
        has_entry(records, address),
{
    records[address]->Entry_0
}

/// Whether the record at `address` is where its key puts it and what the
/// operations can have made it: an event lives at the address derived from
/// its id, holds the bump seed of that address and is within its budgets; an
/// entry lives at the address derived from its event and wallet, is
/// verified, and belongs to an event that `records` holds.
pub open spec fn valid_record(program: Seq<u8>, records: Records, address: Seq<u8>) -> bool {
    match records[address] {
        RecordView::Event(event) => {
            &&& event_address(program, event.event_id) == Some((address, event.bump))
            &&& within_budget(event.event_id, event.requirements)
        },
        RecordView::Entry(entry) => {
            &&& entry_address(program, entry.event, entry.wallet).is_some()
            &&& entry_address(program, entry.event, entry.wallet).unwrap().0 == address
            &&& entry.verified
            &&& has_event(records, entry.event)
        },
    }
}

/// Whether every record of `records` is valid.
pub open spec fn valid_records(program: Seq<u8>, records: Records) -> bool {
    forall|address: Seq<u8>| #[trigger]
        records.dom().contains(address) ==> valid_record(program, records, address)
}

/// A record with its address.
#[derive(Debug)]
struct Account {
    address: Address,
    record: Record,
}

/// The records of one program.
#[derive(Debug)]
pub struct Registry {
    program_id: Address,
    accounts: Vec<Account>,
}

/// The map that a list of accounts stands for: a later account replaces an
/// earlier one at the same address.
spec fn records_of(accounts: Seq<Account>) -> Records
    decreases accounts.len(),
{
    if accounts.len() == 0 {
        Map::empty()
    } else {
        records_of(accounts.drop_last()).insert(accounts.last().address@, accounts.last().record@)
    }
}

/// Whether no address occurs twice.
spec fn distinct(accounts: Seq<Account>) -> bool {
    forall|i: int, j: int|
        0 <= i < j < accounts.len() ==> accounts[i].address@ != accounts[j].address@
}

proof fn lemma_records_dom(accounts: Seq<Account>)
    ensures
        records_of(accounts).dom().finite(),
        forall|a: Seq<u8>| #[trigger]
            records_of(accounts).dom().contains(a) <==> exists|i: int|
                0 <= i < accounts.len() && #[trigger] accounts[i].address@ == a,
    decreases accounts.len(),
{
    if accounts.len() > 0 {
        let front = accounts.drop_last();
        lemma_records_dom(front);
        assert forall|a: Seq<u8>| #[trigger]
            records_of(accounts).dom().contains(a) implies exists|i: int|
            0 <= i < accounts.len() && #[trigger] accounts[i].address@ == a by {
            if a == accounts.last().address@ {
                assert(accounts[accounts.len() - 1].address@ == a);
            } else {
                let i = choose|i: int| 0 <= i < front.len() && #[trigger] front[i].address@ == a;
                assert(accounts[i].address@ == a);
            }
        }
        assert forall|a: Seq<u8>|
            (exists|i: int|
                0 <= i < accounts.len() && #[trigger] accounts[i].address@
                    == a) implies #[trigger] records_of(accounts).dom().contains(a) by {
            let i = choose|i: int| 0 <= i < accounts.len() && #[trigger] accounts[i].address@ == a;
            if i < front.len() {
                assert(front[i].address@ == a);
            }
        }
    }
}

proof fn lemma_records_at(accounts: Seq<Account>, i: int)
    requires
        distinct(accounts),
        0 <= i < accounts.len(),
    ensures
        records_of(accounts).dom().contains(accounts[i].address@),
        records_of(accounts)[accounts[i].address@] == accounts[i].record@,
    decreases accounts.len(),
{
    if i < accounts.len() - 1 {
        let front = accounts.drop_last();
        assert(front[i] == accounts[i]);
        lemma_records_at(front, i);
    }
}

proof fn lemma_records_update(accounts: Seq<Account>, i: int, account: Account)
    requires
        distinct(accounts),
        0 <= i < accounts.len(),
        account.address@ == accounts[i].address@,
    ensures
        distinct(accounts.update(i, account)),
        records_of(accounts.update(i, account)) == records_of(accounts).insert(
            account.address@,
            account.record@,
        ),
    decreases accounts.len(),
{
    let updated = accounts.update(i, account);
    let front = accounts.drop_last();
    if i == accounts.len() - 1 {
        assert(updated.drop_last() =~= front);
        assert(records_of(updated) =~= records_of(accounts).insert(
            account.address@,
            account.record@,
        ));
    } else {
        assert(front[i] == accounts[i]);
        lemma_records_update(front, i, account);
        assert(updated.drop_last() =~= front.update(i, account));
        assert(updated.last() == accounts.last());
        assert(records_of(updated) =~= records_of(accounts).insert(
            account.address@,
            account.record@,
        ));
    }
}

/// A registry as plain values: the program that owns the records, and the
/// records by address.
pub struct RegistryView {
    pub program: Seq<u8>,
    pub records: Records,
}

impl View for Registry {
    type V = RegistryView;

    closed spec fn view(&self) -> RegistryView {
        RegistryView { program: self.program_id@, records: records_of(self.accounts@) }
    }
}

impl Registry {
    /// Whether the registry is one that the operations can have made: no
    /// address is held twice and every record is valid.
    pub closed spec fn wf(&self) -> bool {
        &&& distinct(self.accounts@)
        &&& valid_records(self@.program, self@.records)
    }

    /// A well-formed registry holds valid records, and finitely many.
    pub proof fn lemma_wf(&self)
        requires
            self.wf(),
        ensures
            valid_records(self@.program, self@.records),
            self@.records.dom().finite(),
    {
        lemma_records_dom(self.accounts@);
    }

    /// The registry of a program, with no record yet.
    pub fn new(program_id: Address) -> (registry: Registry)
        ensures
            registry.wf(),
            registry@.program == program_id@,
            registry@.records == Records::empty(),
    {
        Registry { program_id, accounts: Vec::new() }
    }

    /// The handle of the program that owns the records.
    pub fn program_id(&self) -> (program_id: Address)
        ensures
            program_id@ == self@.program,
    {
        self.program_id
    }

    /// The place of the account with the given address.
    fn find(&self, address: &Address) -> (found: Option<usize>)
        requires
            self.wf(),
        ensures
            match found {
                Some(i) => i < self.accounts@.len() && self.accounts@[i as int].address@
                    == address@ && self@.records.dom().contains(address@) && self@.records[address@]
                    == self.accounts@[i as int].record@,
                None => !self@.records.dom().contains(address@),
            },
    {
        proof {
            lemma_records_dom(self.accounts@);
        }
        let mut i: usize = 0;
        while i < self.accounts.len()
            invariant
                i <= self.accounts@.len(),
                distinct(self.accounts@),
                forall|k: int| 0 <= k < i ==> self.accounts@[k].address@ != address@,
            decreases self.accounts@.len() - i,
        {
            if self.accounts[i].address == *address {
                proof {
                    lemma_records_at(self.accounts@, i as int);
                }
                return Some(i);
            }
            i = i + 1;
        }
        None
    }

    /// Whether a record occupies the address.
    pub fn contains(&self, address: &Address) -> (r: bool)
        requires
            self.wf(),
        ensures
            r == self@.records.dom().contains(address@),
    {
        self.find(address).is_some()
    }

    /// What the address holds, as far as creating a record there goes.
    pub fn occupant(&self, address: &Address) -> (r: Occupant)
        requires
            self.wf(),
        ensures
            r == occupant_at(self@.records, address@),
    {
        match self.find(address) {
            Some(i) => match &self.accounts[i].record {
                Record::Entry(_) => Occupant::Entry,
                Record::Event(_) => Occupant::Other,
            },
            None => Occupant::Nothing,
        }
    }

    /// The event at the address, if it holds one.
    pub fn event(&self, address: &Address) -> (r: Option<&EventState>)
        requires
            self.wf(),
        ensures
            r.is_some() == has_event(self@.records, address@),
            r.is_some() ==> r.unwrap()@ == event_at(self@.records, address@),
    {
        match self.find(address) {
            Some(i) => match &self.accounts[i].record {
                Record::Event(event) => Some(event),
                Record::Entry(_) => None,
            },
            None => None,
        }
    }

    /// The entry at the address, if it holds one.
    pub fn entry(&self, address: &Address) -> (r: Option<&EntryState>)
        requires
            self.wf(),
        ensures
            r.is_some() == has_entry(self@.records, address@),
            r.is_some() ==> r.unwrap()@ == entry_at(self@.records, address@),
    {
        match self.find(address) {
            Some(i) => match &self.accounts[i].record {
                Record::Entry(entry) => Some(entry),
                Record::Event(_) => None,
            },
            None => None,
        }
    }

    /// Puts a record at an address that holds none.
    pub(crate) fn insert(&mut self, address: Address, record: Record)
        requires
            old(self).wf(),
            !old(self)@.records.dom().contains(address@),
            valid_record(old(self)@.program, old(self)@.records.insert(address@, record@), address@),
        ensures
            final(self).wf(),
            final(self)@.program == old(self)@.program,
            final(self)@.records == old(self)@.records.insert(address@, record@),
    {
        proof {
            lemma_records_dom(self.accounts@);
        }
        let ghost before = self.accounts@;
        let account = Account { address, record };
        self.accounts.push(account);
        proof {
            assert(self.accounts@.drop_last() =~= before);
            assert(self@.records =~= records_of(before).insert(address@, record@));
            assert forall|a: Seq<u8>| #[trigger] self@.records.dom().contains(a) implies valid_record(
                self@.program,
                self@.records,
                a,
            ) by {
                if a != address@ {
                    assert(records_of(before).dom().contains(a));
                    assert(valid_record(self@.program, records_of(before), a));
                }
            }
        }
    }

    /// Sets the outcome of the entry at the address.
    pub(crate) fn set_valid(&mut self, address: &Address, valid: bool)
        requires
            old(self).wf(),
            has_entry(old(self)@.records, address@),
        ensures
            final(self).wf(),
            final(self)@.program == old(self)@.program,
            final(self)@.records == old(self)@.records.insert(
                address@,
                RecordView::Entry(entry_at(old(self)@.records, address@).marked(valid)),
            ),
    {
        let ghost before = self.accounts@;
        match self.find(address) {
            Some(i) => {
                let account = &mut self.accounts[i];
                match &mut account.record {
                    Record::Entry(entry) => {
                        entry.valid = valid;
                    },
                    Record::Event(_) => {},
                }
                proof {
                    lemma_records_update(before, i as int, self.accounts@[i as int]);
                    assert(self.accounts@ =~= before.update(i as int, self.accounts@[i as int]));
                    assert forall|a: Seq<u8>| #[trigger]
                        self@.records.dom().contains(a) implies valid_record(self@.program, self@.records, a) by {
                        assert(records_of(before).dom().contains(a));
                        assert(valid_record(self@.program, records_of(before), a));
                    }
                }
            },
            None => {},
        }
    }

    /// Closes the event at the address.
    pub(crate) fn set_closed(&mut self, address: &Address)
        requires
            old(self).wf(),
            has_event(old(self)@.records, address@),
        ensures
            final(self).wf(),
            final(self)@.program == old(self)@.program,
            final(self)@.records == old(self)@.records.insert(
                address@,
                RecordView::Event(event_at(old(self)@.records, address@).closed()),
            ),
    {
        let ghost before = self.accounts@;
        match self.find(address) {
            Some(i) => {
                let account = &mut self.accounts[i];
                match &mut account.record {
                    Record::Event(event) => {
                        event.active = false;
                    },
                    Record::Entry(_) => {},
                }
                proof {
                    lemma_records_update(before, i as int, self.accounts@[i as int]);
                    assert(self.accounts@ =~= before.update(i as int, self.accounts@[i as int]));
                    assert forall|a: Seq<u8>| #[trigger]
                        self@.records.dom().contains(a) implies valid_record(self@.program, self@.records, a) by {
                        assert(records_of(before).dom().contains(a));
                        assert(valid_record(self@.program, records_of(before), a));
                    }
                }
            },
            None => {},
        }
    }
}

} // verus!
