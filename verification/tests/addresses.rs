use anchor_lang::prelude::Pubkey;
use verification::address::{
    find_entry_address, find_event_address, seeds_of_entry, seeds_of_event,
};
use verification::Address;

fn handle(byte: u8) -> Address {
    Address::new([byte; 32])
}

#[test]
fn handles_with_the_same_bytes_are_equal() {
    assert_eq!(handle(7), Address::new([7u8; 32]));
    assert!(handle(7) == handle(7));
}

#[test]
fn handles_that_differ_in_one_byte_are_not_equal() {
    let mut bytes = [7u8; 32];
    bytes[31] = 8;
    assert!(handle(7) != Address::new(bytes));
    bytes[31] = 7;
    bytes[0] = 6;
    assert!(handle(7) != Address::new(bytes));
}

#[test]
fn handle_gives_back_its_bytes() {
    let mut bytes = [0u8; 32];
    for (i, byte) in bytes.iter_mut().enumerate() {
        *byte = i as u8;
    }
    assert_eq!(Address::new(bytes).to_bytes(), bytes);
}

#[test]
fn event_address_is_the_program_address_of_tag_and_id() {
    let program = handle(9);
    let (expected, expected_bump) = Pubkey::find_program_address(
        &[b"event", "hack-2024".as_bytes()],
        &Pubkey::new_from_array([9u8; 32]),
    );
    let (address, bump) = find_event_address(&program, "hack-2024").unwrap();
    assert_eq!(address.to_bytes(), expected.to_bytes());
    assert_eq!(bump, expected_bump);
}

#[test]
fn event_address_is_neither_the_program_nor_a_seed() {
    let program = handle(9);
    let (address, _) = find_event_address(&program, "hack-2024").unwrap();
    assert!(address != program);
    assert_ne!(&address.to_bytes()[..9], "hack-2024".as_bytes());
}

#[test]
fn event_address_with_its_bump_recreates_itself() {
    let program = handle(4);
    let (address, bump) = find_event_address(&program, "retro").unwrap();
    let recreated = Pubkey::create_program_address(
        &[b"event", b"retro", &[bump]],
        &Pubkey::new_from_array([4u8; 32]),
    );
    assert_eq!(recreated.unwrap().to_bytes(), address.to_bytes());
}

#[test]
fn entry_address_is_the_program_address_of_tag_event_and_wallet() {
    let program = handle(9);
    let event = handle(21);
    let wallet = handle(22);
    let (expected, expected_bump) = Pubkey::find_program_address(
        &[b"entry", &[21u8; 32], &[22u8; 32]],
        &Pubkey::new_from_array([9u8; 32]),
    );
    let (address, bump) = find_entry_address(&program, &event, &wallet).unwrap();
    assert_eq!(address.to_bytes(), expected.to_bytes());
    assert_eq!(bump, expected_bump);
}

#[test]
fn entry_address_depends_on_the_order_of_event_and_wallet() {
    let program = handle(9);
    let one = find_entry_address(&program, &handle(21), &handle(22)).unwrap();
    let other = find_entry_address(&program, &handle(22), &handle(21)).unwrap();
    assert!(one.0 != other.0);
}

#[test]
fn derivation_gives_the_same_address_each_time() {
    let program = handle(3);
    let first = find_event_address(&program, "summer-cup").unwrap();
    let second = find_event_address(&program, "summer-cup").unwrap();
    assert_eq!(first, second);
    let first = find_entry_address(&program, &handle(1), &handle(2)).unwrap();
    let second = find_entry_address(&program, &handle(1), &handle(2)).unwrap();
    assert_eq!(first, second);
}

#[test]
fn different_ids_and_programs_give_different_addresses() {
    let a = find_event_address(&handle(3), "summer-cup").unwrap();
    let b = find_event_address(&handle(3), "winter-cup").unwrap();
    let c = find_event_address(&handle(5), "summer-cup").unwrap();
    assert!(a.0 != b.0);
    assert!(a.0 != c.0);
}

#[test]
fn event_and_entry_tags_keep_the_two_kinds_apart() {
    let program = handle(9);
    let (expected, _) = Pubkey::find_program_address(
        &[b"event", &[21u8; 32]],
        &Pubkey::new_from_array([9u8; 32]),
    );
    let (entry_like, _) = Pubkey::find_program_address(
        &[b"entry", &[21u8; 32]],
        &Pubkey::new_from_array([9u8; 32]),
    );
    let id = String::from_utf8(vec![21u8; 32]).unwrap();
    let (address, _) = find_event_address(&program, &id).unwrap();
    assert_eq!(address.to_bytes(), expected.to_bytes());
    assert_ne!(address.to_bytes(), entry_like.to_bytes());
}

fn program_address(seeds: &[&[u8]], program: u8) -> ([u8; 32], u8) {
    let (address, bump) =
        Pubkey::find_program_address(seeds, &Pubkey::new_from_array([program; 32]));
    (address.to_bytes(), bump)
}

#[test]
fn event_id_of_32_bytes_is_one_seed() {
    let id = "a".repeat(32);
    let expected = program_address(&[b"event", id.as_bytes()], 9);
    let (address, bump) = find_event_address(&handle(9), &id).unwrap();
    assert_eq!((address.to_bytes(), bump), expected);
}

#[test]
fn event_id_of_33_bytes_is_split_after_32_bytes() {
    let id = format!("{}{}", "a".repeat(32), "b");
    let expected = program_address(&[b"event", "a".repeat(32).as_bytes(), b"b"], 9);
    let (address, bump) = find_event_address(&handle(9), &id).unwrap();
    assert_eq!((address.to_bytes(), bump), expected);
}

#[test]
fn event_id_of_50_bytes_has_an_address() {
    let id: String = (0..50u8).map(|i| (b'a' + i % 26) as char).collect();
    let bytes = id.as_bytes();
    let expected = program_address(&[b"event", &bytes[..32], &bytes[32..]], 9);
    let (address, bump) = find_event_address(&handle(9), &id).unwrap();
    assert_eq!((address.to_bytes(), bump), expected);
}

#[test]
fn address_of_a_long_event_id_is_the_hash_of_tag_and_id_bytes() {
    let id: String = (0..50u8).map(|i| (b'a' + i % 26) as char).collect();
    let bytes = id.as_bytes();
    let (address, bump) = find_event_address(&handle(9), &id).unwrap();
    let program = Pubkey::new_from_array([9u8; 32]);
    let other_cut =
        Pubkey::create_program_address(&[b"event", &bytes[..25], &bytes[25..], &[bump]], &program);
    assert_eq!(other_cut.unwrap().to_bytes(), address.to_bytes());
    let tag_joined = [b"event".as_slice(), &bytes[..20]].concat();
    let joined =
        Pubkey::create_program_address(&[&tag_joined, &bytes[20..], &[bump]], &program);
    assert_eq!(joined.unwrap().to_bytes(), address.to_bytes());
}

#[test]
fn long_event_ids_that_differ_in_the_last_byte_have_different_addresses() {
    let one = format!("{}{}", "a".repeat(49), "x");
    let other = format!("{}{}", "a".repeat(49), "y");
    let first = find_event_address(&handle(9), &one).unwrap();
    let second = find_event_address(&handle(9), &other).unwrap();
    assert!(first.0 != second.0);
}

#[test]
fn empty_event_id_has_an_address() {
    let (expected, expected_bump) =
        Pubkey::find_program_address(&[b"event", b""], &Pubkey::new_from_array([9u8; 32]));
    let (address, bump) = find_event_address(&handle(9), "").unwrap();
    assert_eq!(address.to_bytes(), expected.to_bytes());
    assert_eq!(bump, expected_bump);
}

#[test]
fn seed_limit_is_that_of_the_derivation() {
    assert_eq!(verification::address::MAX_SEED_LEN, 32);
    assert_eq!(
        verification::address::MAX_SEED_LEN,
        anchor_lang::solana_program::pubkey::MAX_SEED_LEN
    );
}

#[test]
fn multibyte_event_id_is_split_by_bytes() {
    let id = format!("a{}", "é".repeat(17));
    let bytes = id.as_bytes();
    assert_eq!(bytes.len(), 35);
    let expected = program_address(&[b"event", &bytes[..32], &bytes[32..]], 9);
    let (address, bump) = find_event_address(&handle(9), &id).unwrap();
    assert_eq!((address.to_bytes(), bump), expected);
}

#[test]
fn seeds_of_an_event_are_the_tag_and_the_id_in_pieces() {
    assert_eq!(seeds_of_event("cup"), vec![b"event".to_vec(), b"cup".to_vec()]);
    assert_eq!(seeds_of_event(""), vec![b"event".to_vec(), Vec::new()]);
    let id = format!("{}{}", "a".repeat(32), "b".repeat(18));
    assert_eq!(
        seeds_of_event(&id),
        vec![b"event".to_vec(), vec![b'a'; 32], vec![b'b'; 18]]
    );
    assert_eq!(seeds_of_event(&"a".repeat(32)), vec![b"event".to_vec(), vec![b'a'; 32]]);
    assert_eq!(
        seeds_of_event(&"a".repeat(33)),
        vec![b"event".to_vec(), vec![b'a'; 32], vec![b'a'; 1]]
    );
}

#[test]
fn seeds_of_an_entry_are_the_tag_the_event_and_the_wallet() {
    assert_eq!(
        seeds_of_entry(&handle(21), &handle(22)),
        vec![b"entry".to_vec(), vec![21u8; 32], vec![22u8; 32]]
    );
}
