use verification::{
    close_event, initialize_event, mark_invalid, mark_valid, register_wallet, Address, CloseEvent,
    ErrorCode, InitializeEvent, MarkInvalid, MarkValid, RegisterWallet, Registry, Requirement,
};

fn handle(byte: u8) -> Address {
    Address::new([byte; 32])
}

fn requirement(kind: &str, config: &str) -> Requirement {
    Requirement { requirement_type: kind.to_string(), config: config.to_string() }
}

#[test]
fn event_lifecycle_from_opening_to_reverification() {
    let mut registry = Registry::new(handle(9));
    let authority = handle(1);
    let wallet_w = handle(2);
    let wallet_x = handle(3);

    let accounts = InitializeEvent::try_accounts(&handle(9), authority, "hack-2024").unwrap().unwrap();
    let requirements = vec![requirement("token", "min=1"), requirement("nft", "collection=abc")];
    assert_eq!(
        initialize_event(&mut registry, &accounts, "hack-2024".to_string(), 10, requirements),
        Ok(())
    );
    let event = accounts.event;
    let stored = registry.event(&event).unwrap();
    assert!(stored.active);
    assert_eq!(stored.max_winners, 10);
    assert_eq!(stored.requirements.len(), 2);

    let accounts = RegisterWallet::try_accounts(&registry, wallet_w, event).unwrap();
    assert_eq!(register_wallet(&mut registry, &accounts), Ok(()));
    let entry = accounts.entry;
    let stored = registry.entry(&entry).unwrap();
    assert!(stored.verified);
    assert!(!stored.valid);

    let accounts = MarkValid::try_accounts(&registry, authority, event, entry).unwrap();
    assert_eq!(mark_valid(&mut registry, &accounts), Ok(()));
    assert!(registry.entry(&entry).unwrap().valid);

    let accounts = CloseEvent::try_accounts(&registry, authority, event).unwrap();
    assert_eq!(close_event(&mut registry, &accounts), Ok(()));
    assert!(!registry.event(&event).unwrap().active);

    let accounts = RegisterWallet::try_accounts(&registry, wallet_x, event).unwrap();
    assert_eq!(register_wallet(&mut registry, &accounts), Err(ErrorCode::EventNotActive));
    assert!(!registry.contains(&accounts.entry));

    let accounts = MarkInvalid::try_accounts(&registry, authority, event, entry).unwrap();
    assert_eq!(mark_invalid(&mut registry, &accounts), Ok(()));
    assert!(!registry.entry(&entry).unwrap().valid);
}
