//! Identity handles and the derivation of record addresses.

use anchor_lang::prelude::Pubkey;
use vstd::prelude::*;
use vstd::slice::{slice_subrange, slice_to_vec};
use vstd::std_specs::cmp::PartialEqSpecImpl;
use vstd::utf8::encode_utf8;

verus! {

/// A 32-byte identity handle: a signer, a program, or the place of a record.
#[derive(Clone, Copy, Debug)]
pub struct Address {
    pub bytes: [u8; 32],
}

impl View for Address {
    type V = Seq<u8>;

    open spec fn view(&self) -> Seq<u8> {
        self.bytes@
    }
}

impl PartialEq for Address {
    fn eq(&self, other: &Address) -> (r: bool) {
        let mut i: usize = 0;
        while i < 32
            invariant
                i <= 32,
                forall|k: int| 0 <= k < i ==> self.bytes[k] == other.bytes[k],
            decreases 32 - i,
        {
            if self.bytes[i] != other.bytes[i] {
                return false;
            }
            i = i + 1;
        }
        assert(self.bytes@ =~= other.bytes@);
        true
    }
}

impl PartialEqSpecImpl for Address {
    open spec fn obeys_eq_spec() -> bool {
        true
    }

    open spec fn eq_spec(&self, other: &Address) -> bool {
        self@ == other@
    }
}

impl Eq for Address {

}

impl Address {
    /// The handle made of the given bytes.
    pub fn new(bytes: [u8; 32]) -> (r: Address)
        ensures
            r@ == bytes@,
    {
        Address { bytes }
    }

    /// The bytes of the handle.
    pub fn to_bytes(&self) -> (r: [u8; 32])
        ensures
            r@ == self@,
    {
        self.bytes
    }
}

/// The address and the bump seed that `Pubkey::try_find_program_address`
/// yields for the given seeds under the given program, or `None` where it
/// finds no address.
pub uninterp spec fn program_address(seeds: Seq<Seq<u8>>, program_id: Seq<u8>) -> Option<
    (Seq<u8>, u8),
>;

/// An outcome of the search as plain values.
pub open spec fn found_view(found: Option<(Address, u8)>) -> Option<(Seq<u8>, u8)> {
    match found {
        Some((address, bump)) => Some((address@, bump)),
        None => None,
    }
}

/// The seeds as a sequence of byte strings.
pub open spec fn seeds_view(seeds: Seq<Vec<u8>>) -> Seq<Seq<u8>> {
    seeds.map_values(|seed: Vec<u8>| seed@)
}

/// The most bytes that one seed may have (`MAX_SEED_LEN` of solana-address).
/// A longer key is handed to the derivation in several seeds.
pub const MAX_SEED_LEN: usize = 32;

/// Calls `Pubkey::try_find_program_address` of anchor_lang (solana-address)
/// on the seeds, in their order, and the program's handle. The search hashes
/// the seeds, a bump seed counted down from 255 and the program's bytes, and
/// takes the first hash that is no curve point: it depends on the arguments
/// alone, and the contract gives its outcome the name `program_address`.
#[verifier::external_body]
fn try_find_program_address(seeds: &Vec<Vec<u8>>, program_id: &Address) -> (found: Option<
    (Address, u8),
>)
    ensures
        found_view(found) == program_address(seeds_view(seeds@), program_id@),
{
    let slices: Vec<&[u8]> = seeds.iter().map(|seed| seed.as_slice()).collect();
    let program = Pubkey::new_from_array(program_id.bytes);
    match Pubkey::try_find_program_address(&slices, &program) {
        Some((address, bump)) => Some((Address { bytes: address.to_bytes() }, bump)),
        None => None,
    }
}

/// The domain tag of event records: the bytes of `event`.
pub open spec fn event_tag() -> Seq<u8> {
    seq![101u8, 118u8, 101u8, 110u8, 116u8]
}

/// The domain tag of entry records: the bytes of `entry`.
pub open spec fn entry_tag() -> Seq<u8> {
    seq![101u8, 110u8, 116u8, 114u8, 121u8]
}

/// The bytes of an event id as seeds: as one seed where they are no more
/// than `MAX_SEED_LEN`, else the first `MAX_SEED_LEN` bytes and the rest.
/// The derivation hashes its seeds one after the other, so either way it
/// hashes the bytes of the id.
pub open spec fn id_seeds(id: Seq<u8>) -> Seq<Seq<u8>> {
    if id.len() <= MAX_SEED_LEN {
        seq![id]
    } else {
        seq![id.subrange(0, MAX_SEED_LEN as int), id.subrange(MAX_SEED_LEN as int, id.len() as int)]
    }
}

/// Where the event named `event_id` lives under the program, with the bump
/// seed that proves it: derived from the event tag and the bytes of the id.
pub open spec fn event_address(program_id: Seq<u8>, event_id: Seq<char>) -> Option<(Seq<u8>, u8)> {
    program_address(event_seeds(event_id), program_id)
}

/// Where the entry of `wallet` for the event at `event` lives under the
/// program: derived from the entry tag and the two handles.
pub open spec fn entry_address(program_id: Seq<u8>, event: Seq<u8>, wallet: Seq<u8>) -> Option<
    (Seq<u8>, u8),
> {
    program_address(entry_seeds(event, wallet), program_id)
}

fn event_tag_bytes() -> (tag: Vec<u8>)
    ensures
        tag@ == event_tag(),
{
    let mut tag: Vec<u8> = Vec::new();
    tag.push(101u8);
    tag.push(118u8);
    tag.push(101u8);
    tag.push(110u8);
    tag.push(116u8);
    assert(tag@ =~= event_tag());
    tag
}

fn entry_tag_bytes() -> (tag: Vec<u8>)
    ensures
        tag@ == entry_tag(),
{
    let mut tag: Vec<u8> = Vec::new();
    tag.push(101u8);
    tag.push(110u8);
    tag.push(116u8);
    tag.push(114u8);
    tag.push(121u8);
    assert(tag@ =~= entry_tag());
    tag
}

/// The seeds of the event named `event_id`: what the derivation is called
/// with, and what signs for the address with the bump seed added.
pub open spec fn event_seeds(event_id: Seq<char>) -> Seq<Seq<u8>> {
    seq![event_tag()] + id_seeds(encode_utf8(event_id))
}

/// The seeds of the entry of `wallet` for the event at `event`.
pub open spec fn entry_seeds(event: Seq<u8>, wallet: Seq<u8>) -> Seq<Seq<u8>> {
    seq![entry_tag(), event, wallet]
}

/// The seeds of the event named `event_id`: the event tag, then the bytes of
/// the id in seeds of at most `MAX_SEED_LEN` bytes.
pub fn seeds_of_event(event_id: &str) -> (seeds: Vec<Vec<u8>>)
    ensures
        seeds_view(seeds@) == event_seeds(event_id@),
{
    let id = event_id.as_bytes();
    let mut seeds: Vec<Vec<u8>> = Vec::new();
    seeds.push(event_tag_bytes());
    if id.len() <= MAX_SEED_LEN {
        seeds.push(slice_to_vec(id));
    } else {
        seeds.push(slice_to_vec(slice_subrange(id, 0, MAX_SEED_LEN)));
        seeds.push(slice_to_vec(slice_subrange(id, MAX_SEED_LEN, id.len())));
    }
    assert(seeds_view(seeds@) =~= event_seeds(event_id@));
    seeds
}

/// The seeds of the entry of `wallet` for the event at `event`: the entry
/// tag and the two handles.
pub fn seeds_of_entry(event: &Address, wallet: &Address) -> (seeds: Vec<Vec<u8>>)
    ensures
        seeds_view(seeds@) == entry_seeds(event@, wallet@),
{
    let mut seeds: Vec<Vec<u8>> = Vec::new();
    seeds.push(entry_tag_bytes());
    seeds.push(slice_to_vec(event.bytes.as_slice()));
    seeds.push(slice_to_vec(wallet.bytes.as_slice()));
    assert(seeds_view(seeds@) =~= entry_seeds(event@, wallet@));
    seeds
}

/// Derives the address of the event named `event_id`, and its bump seed.
/// `None` where the derivation finds no address for the id.
pub fn find_event_address(program_id: &Address, event_id: &str) -> (found: Option<(Address, u8)>)
    ensures
        found_view(found) == event_address(program_id@, event_id@),
{
    try_find_program_address(&seeds_of_event(event_id), program_id)
}

/// Derives the address of the entry of `wallet` for the event at `event`,
/// and its bump seed. `None` where the derivation finds no address for the
/// pair.
pub fn find_entry_address(program_id: &Address, event: &Address, wallet: &Address) -> (found:
    Option<(Address, u8)>)
    ensures
        found_view(found) == entry_address(program_id@, event@, wallet@),
{
    try_find_program_address(&seeds_of_entry(event, wallet), program_id)
}

} // verus!
