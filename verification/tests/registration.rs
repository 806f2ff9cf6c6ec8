use scavenger::events::{emit_participant_registered, EventLog, MAX_EVENT_PAYLOAD};
use scavenger::register;
use scavenger::store::ParticipantStore;
use scavenger::types::{
    address_eq, bytes_eq, role_from_code, Address, Error, Participant, Role, MAX_NAME_LEN,
};

fn addr(bytes: &[u8]) -> Address {
    Address { bytes: bytes.to_vec() }
}

fn participant(address: &[u8], role: Role, name: &[u8], registered_at: u64) -> Participant {
    Participant {
        address: addr(address),
        role,
        name: name.to_vec(),
        latitude: 0,
        longitude: 0,
        registered_at,
    }
}

#[test]
fn first_registration_succeeds() {
    let mut store = ParticipantStore::new();
    let mut log = EventLog::new();
    let t0: u64 = 1_700_000_000;
    let r = register(
        &mut store,
        &mut log,
        addr(b"A"),
        0,
        b"Alice".to_vec(),
        407128,
        -740060,
        t0,
    );
    assert_eq!(r, Ok(()));

    let stored = store.get(&addr(b"A")).expect("record must be stored");
    assert_eq!(stored.address.bytes, b"A".to_vec());
    assert_eq!(stored.role, Role::Recycler);
    assert_eq!(stored.name, b"Alice".to_vec());
    assert_eq!(stored.latitude, 407128);
    assert_eq!(stored.longitude, -740060);
    assert_eq!(stored.registered_at, t0);

    assert_eq!(log.len(), 1);
    let event = log.event(0).expect("one event must be published");
    assert_eq!(event.topic, b"reg".to_vec());
    assert_eq!(event.address.bytes, b"A".to_vec());
    assert_eq!(event.role, Role::Recycler);
    assert_eq!(event.name, b"Alice".to_vec());
    assert_eq!(event.latitude, 407128);
    assert_eq!(event.longitude, -740060);
}

#[test]
fn second_registration_fails_already_registered() {
    let mut store = ParticipantStore::new();
    let mut log = EventLog::new();
    let r1 = register(
        &mut store,
        &mut log,
        addr(b"A"),
        0,
        b"Alice".to_vec(),
        407128,
        -740060,
        5,
    );
    assert_eq!(r1, Ok(()));
    // Differing role, name and coordinates must not matter.
    let r2 = register(&mut store, &mut log, addr(b"A"), 2, b"Mallory".to_vec(), 1, 2, 9);
    assert_eq!(r2, Err(Error::AlreadyRegistered));

    // The store still holds exactly the first record, and no second event.
    assert_eq!(store.len(), 1);
    let stored = store.get(&addr(b"A")).expect("first record must remain");
    assert_eq!(stored.name, b"Alice".to_vec());
    assert_eq!(stored.role, Role::Recycler);
    assert_eq!(stored.registered_at, 5);
    assert_eq!(log.len(), 1);
}

#[test]
fn empty_name_is_rejected_without_a_trace() {
    let mut store = ParticipantStore::new();
    let mut log = EventLog::new();
    let r = register(&mut store, &mut log, addr(b"A"), 0, Vec::new(), 1, 2, 3);
    assert_eq!(r, Err(Error::InvalidName));
    assert!(!store.contains(&addr(b"A")));
    assert_eq!(store.len(), 0);
    assert_eq!(log.len(), 0);
}

#[test]
fn overlong_name_is_rejected() {
    let mut store = ParticipantStore::new();
    let mut log = EventLog::new();
    let name = vec![b'x'; MAX_NAME_LEN + 1];
    let r = register(&mut store, &mut log, addr(b"A"), 1, name, 0, 0, 0);
    assert_eq!(r, Err(Error::InvalidName));
    assert_eq!(store.len(), 0);
    assert_eq!(log.len(), 0);
}

#[test]
fn longest_name_is_accepted() {
    let mut store = ParticipantStore::new();
    let mut log = EventLog::new();
    let name = vec![b'x'; MAX_NAME_LEN];
    let r = register(&mut store, &mut log, addr(b"A"), 1, name.clone(), 0, 0, 0);
    assert_eq!(r, Ok(()));
    assert_eq!(store.get(&addr(b"A")).unwrap().name, name);
}

#[test]
fn unknown_role_code_is_rejected() {
    let mut store = ParticipantStore::new();
    let mut log = EventLog::new();
    let r = register(&mut store, &mut log, addr(b"A"), 3, b"Alice".to_vec(), 0, 0, 0);
    assert_eq!(r, Err(Error::InvalidRole));
    let r = register(&mut store, &mut log, addr(b"A"), 255, b"Alice".to_vec(), 0, 0, 0);
    assert_eq!(r, Err(Error::InvalidRole));
    assert_eq!(store.len(), 0);
    assert_eq!(log.len(), 0);
}

#[test]
fn validation_failure_keeps_prior_state() {
    let mut store = ParticipantStore::new();
    let mut log = EventLog::new();
    assert_eq!(
        register(&mut store, &mut log, addr(b"A"), 0, b"Alice".to_vec(), 1, 2, 3),
        Ok(())
    );
    // A failed call afterwards reflects only the prior successful state.
    assert_eq!(
        register(&mut store, &mut log, addr(b"B"), 0, Vec::new(), 1, 2, 3),
        Err(Error::InvalidName)
    );
    assert!(store.contains(&addr(b"A")));
    assert!(!store.contains(&addr(b"B")));
    assert_eq!(store.len(), 1);
    assert_eq!(log.len(), 1);
}

#[test]
fn registered_at_is_non_decreasing_in_call_order() {
    let mut store = ParticipantStore::new();
    let mut log = EventLog::new();
    assert_eq!(
        register(&mut store, &mut log, addr(b"A"), 0, b"Alice".to_vec(), 1, 2, 100),
        Ok(())
    );
    assert_eq!(
        register(&mut store, &mut log, addr(b"B"), 1, b"Bob".to_vec(), 3, 4, 100),
        Ok(())
    );
    assert_eq!(
        register(&mut store, &mut log, addr(b"C"), 2, b"Carol".to_vec(), 5, 6, 250),
        Ok(())
    );
    let ta = store.get(&addr(b"A")).unwrap().registered_at;
    let tb = store.get(&addr(b"B")).unwrap().registered_at;
    let tc = store.get(&addr(b"C")).unwrap().registered_at;
    assert!(ta <= tb && tb <= tc);
}

#[test]
fn event_payload_matches_stored_record() {
    let mut store = ParticipantStore::new();
    let mut log = EventLog::new();
    assert_eq!(
        register(&mut store, &mut log, addr(b"A"), 2, b"Plant 9".to_vec(), -33000, 151000, 42),
        Ok(())
    );
    let stored = store.get(&addr(b"A")).unwrap();
    let event = log.event(0).unwrap();
    assert_eq!(event.address.bytes, stored.address.bytes);
    assert_eq!(event.role, stored.role);
    assert_eq!(event.name, stored.name);
    assert_eq!(event.latitude, stored.latitude);
    assert_eq!(event.longitude, stored.longitude);
}

#[test]
fn store_put_rejects_duplicate_key() {
    let mut store = ParticipantStore::new();
    let first = participant(b"A", Role::Recycler, b"Alice", 1);
    assert_eq!(store.put(&addr(b"A"), first), Ok(()));
    let second = participant(b"A", Role::Collector, b"Bob", 2);
    assert_eq!(store.put(&addr(b"A"), second), Err(Error::DuplicateParticipant));
    // The first record was not overwritten.
    assert_eq!(store.get(&addr(b"A")).unwrap().name, b"Alice".to_vec());
    assert_eq!(store.len(), 1);
}

#[test]
fn store_put_rejects_invalid_name() {
    let mut store = ParticipantStore::new();
    let record = participant(b"A", Role::Recycler, b"", 1);
    assert_eq!(store.put(&addr(b"A"), record), Err(Error::InvalidName));
    assert_eq!(store.len(), 0);
}

#[test]
fn store_get_missing_is_not_found() {
    let mut store = ParticipantStore::new();
    assert_eq!(store.get(&addr(b"A")).unwrap_err(), Error::NotFound);
    let record = participant(b"A", Role::Manufacturer, b"Alice", 1);
    assert_eq!(store.put(&addr(b"A"), record), Ok(()));
    assert_eq!(store.get(&addr(b"B")).unwrap_err(), Error::NotFound);
}

#[test]
fn oversized_payload_fails_publish_and_appends_nothing() {
    let mut log = EventLog::new();
    // The payload carries 25 bytes beside the name, so this name is one
    // byte past the channel's bound.
    let name = vec![b'n'; MAX_EVENT_PAYLOAD - 24];
    let r = emit_participant_registered(&mut log, &addr(b"A"), Role::Recycler, &name, 0, 0);
    assert_eq!(r, Err(Error::PublishFailure));
    assert_eq!(log.len(), 0);

    let name = vec![b'n'; MAX_EVENT_PAYLOAD - 25];
    let r = emit_participant_registered(&mut log, &addr(b"A"), Role::Recycler, &name, 0, 0);
    assert_eq!(r, Ok(()));
    assert_eq!(log.len(), 1);
}

#[test]
fn event_lookup_past_the_end_is_none() {
    let log = EventLog::new();
    assert!(log.event(0).is_none());
}

#[test]
fn role_codes_are_fixed() {
    assert_eq!(role_from_code(0), Ok(Role::Recycler));
    assert_eq!(role_from_code(1), Ok(Role::Collector));
    assert_eq!(role_from_code(2), Ok(Role::Manufacturer));
    assert_eq!(role_from_code(3), Err(Error::InvalidRole));
    assert_eq!(Role::Recycler.code(), 0);
    assert_eq!(Role::Collector.code(), 1);
    assert_eq!(Role::Manufacturer.code(), 2);
}

#[test]
fn address_comparison_goes_by_contents() {
    assert!(address_eq(&addr(b"same"), &addr(b"same")));
    assert!(!address_eq(&addr(b"one"), &addr(b"two")));
    assert!(bytes_eq(&b"ab".to_vec(), &b"ab".to_vec()));
    assert!(!bytes_eq(&b"ab".to_vec(), &b"abc".to_vec()));
}
