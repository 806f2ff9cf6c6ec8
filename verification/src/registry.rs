//! The registration service: validates a request, persists the record, then
//! announces it. The store write happens before the event is published, and a
//! failed request leaves both the store and the event log untouched.

use vstd::prelude::*;

use crate::events::{
    check_payload_fits, emit_participant_registered, registration_event, EventLog,
    EventView,
};
use crate::store::ParticipantStore;
use crate::types::{
    clone_address, clone_bytes, role_from_code, role_of_code, valid_name, valid_role_code, Address,
    Error, Participant, ParticipantView, MAX_NAME_LEN,
};

verus! {

/// The outcome a `register` call owes for a given prior store state and
/// inputs: the role code must name a variant, the name must be acceptable,
/// and the caller must not be registered yet, checked in that order.
pub open spec fn register_result(
    store: Map<Seq<u8>, ParticipantView>,
    caller: Seq<u8>,
    role_code: u8,
    name: Seq<u8>,
) -> Result<(), Error> {
    if !valid_role_code(role_code) {
        Err(Error::InvalidRole)
    } else if !valid_name(name) {
        Err(Error::InvalidName)
    } else if store.contains_key(caller) {
        Err(Error::AlreadyRegistered)
    } else {
        Ok(())
    }
}

/// The record a successful registration stores: the caller's identity, the
/// validated fields, and the host clock's value as the immutable
/// `registered_at`.
pub open spec fn registered_record(
    caller: Seq<u8>,
    role_code: u8,
    name: Seq<u8>,
    latitude: i64,
    longitude: i64,
    now: u64,
) -> ParticipantView {
    ParticipantView {
        address: caller,
        role: role_of_code(role_code),
        name,
        latitude,
        longitude,
        registered_at: now,
    }
}

/// The store state after a `register` call: unchanged on failure, extended by
/// exactly the new record on success.
pub open spec fn register_post_store(
    store: Map<Seq<u8>, ParticipantView>,
    caller: Seq<u8>,
    role_code: u8,
    name: Seq<u8>,
    latitude: i64,
    longitude: i64,
    now: u64,
) -> Map<Seq<u8>, ParticipantView> {
    if register_result(store, caller, role_code, name) is Ok {
        store.insert(caller, registered_record(caller, role_code, name, latitude, longitude, now))
    } else {
        store
    }
}

/// The event log after a `register` call: unchanged on failure, extended by
/// exactly one event on success.
pub open spec fn register_post_events(
    events: Seq<EventView>,
    store: Map<Seq<u8>, ParticipantView>,
    caller: Seq<u8>,
    role_code: u8,
    name: Seq<u8>,
    latitude: i64,
    longitude: i64,
) -> Seq<EventView> {
    if register_result(store, caller, role_code, name) is Ok {
        events.push(registration_event(caller, role_of_code(role_code), name, latitude, longitude))
    } else {
        events
    }
}

/// Registers the authenticated caller as a participant.
///
/// The address and the timestamp come from the host context, never from the
/// request itself; the role arrives as its wire code so an unrecognized value
/// is a validation error. On success the record is stored under the caller's
/// address and one event is published; on failure nothing changes.
pub fn register(
    store: &mut ParticipantStore,
    events: &mut EventLog,
    caller: Address,
    role_code: u8,
    name: Vec<u8>,
    latitude: i64,
    longitude: i64,
    now: u64,
) -> (r: Result<(), Error>)
    requires
        old(store).wf(),
    ensures
        final(store).wf(),
        r == register_result(old(store)@, caller@, role_code, name@),
        final(store)@ == register_post_store(
            old(store)@,
            caller@,
            role_code,
            name@,
            latitude,
            longitude,
            now,
        ),
        final(events)@ == register_post_events(
            old(events)@,
            old(store)@,
            caller@,
            role_code,
            name@,
            latitude,
            longitude,
        ),
{
    let role = match role_from_code(role_code) {
        Ok(role) => role,
        Err(e) => {
            return Err(e);
        },
    };
    if name.len() == 0 || name.len() > MAX_NAME_LEN {
        return Err(Error::InvalidName);
    }
    if store.contains(&caller) {
        return Err(Error::AlreadyRegistered);
    }
    // Stage the announcement before writing: a payload the channel would
    // reject must fail the whole request while nothing is committed yet.
    // A validated name always fits, so this check cannot fire here; it is
    // handled rather than assumed away.
    if !check_payload_fits(&name) {
        return Err(Error::PublishFailure);
    }
    let record = Participant {
        address: clone_address(&caller),
        role,
        name: clone_bytes(&name),
        latitude,
        longitude,
        registered_at: now,
    };
    // Commit the store write first; a lost race surfaces as an error, never
    // as an overwrite. Validation above makes both failures unreachable.
    match store.put(&caller, record) {
        Ok(()) => {},
        Err(e) => {
            return Err(e);
        },
    }
    // Flush the staged announcement; the write above happens-before it.
    match emit_participant_registered(events, &caller, role, &name, latitude, longitude) {
        Ok(()) => {},
        Err(e) => {
            return Err(e);
        },
    }
    Ok(())
}

/// A first registration for an identity succeeds, and a second request for
/// the same identity is rejected as `AlreadyRegistered`, whatever valid
/// role, name and coordinates the second request carries.
pub proof fn lemma_register_once(
    store: Map<Seq<u8>, ParticipantView>,
    caller: Seq<u8>,
    role_code1: u8,
    name1: Seq<u8>,
    latitude1: i64,
    longitude1: i64,
    now1: u64,
    role_code2: u8,
    name2: Seq<u8>,
)
    requires
        !store.contains_key(caller),
        valid_role_code(role_code1),
        valid_name(name1),
        valid_role_code(role_code2),
        valid_name(name2),
    ensures
        register_result(store, caller, role_code1, name1) == Ok::<(), Error>(()),
        register_result(
            register_post_store(store, caller, role_code1, name1, latitude1, longitude1, now1),
            caller,
            role_code2,
            name2,
        ) == Err::<(), Error>(Error::AlreadyRegistered),
{
}

/// After a successful registration, the record stored under the caller's
/// address carries exactly the fields of the one event that was published.
pub proof fn lemma_event_matches_store(
    store: Map<Seq<u8>, ParticipantView>,
    events: Seq<EventView>,
    caller: Seq<u8>,
    role_code: u8,
    name: Seq<u8>,
    latitude: i64,
    longitude: i64,
    now: u64,
)
    requires
        register_result(store, caller, role_code, name) == Ok::<(), Error>(()),
    ensures
        ({
            let post_store = register_post_store(
                store,
                caller,
                role_code,
                name,
                latitude,
                longitude,
                now,
            );
            let post_events = register_post_events(
                events,
                store,
                caller,
                role_code,
                name,
                latitude,
                longitude,
            );
            &&& post_store.contains_key(caller)
            &&& post_events.len() == events.len() + 1
            &&& post_events.last().address == post_store[caller].address
            &&& post_events.last().role == post_store[caller].role
            &&& post_events.last().name == post_store[caller].name
            &&& post_events.last().latitude == post_store[caller].latitude
            &&& post_events.last().longitude == post_store[caller].longitude
        }),
{
}

/// `registered_at` is non-decreasing across successive successful
/// registrations: with the host clock monotonic, a later registration never
/// carries an earlier timestamp than one committed before it.
pub proof fn lemma_registered_at_monotonic(
    store: Map<Seq<u8>, ParticipantView>,
    caller1: Seq<u8>,
    role_code1: u8,
    name1: Seq<u8>,
    latitude1: i64,
    longitude1: i64,
    now1: u64,
    caller2: Seq<u8>,
    role_code2: u8,
    name2: Seq<u8>,
    latitude2: i64,
    longitude2: i64,
    now2: u64,
)
    requires
        register_result(store, caller1, role_code1, name1) == Ok::<(), Error>(()),
        register_result(
            register_post_store(store, caller1, role_code1, name1, latitude1, longitude1, now1),
            caller2,
            role_code2,
            name2,
        ) == Ok::<(), Error>(()),
        now1 <= now2,
    ensures
        ({
            let store1 = register_post_store(
                store,
                caller1,
                role_code1,
                name1,
                latitude1,
                longitude1,
                now1,
            );
            let store2 = register_post_store(
                store1,
                caller2,
                role_code2,
                name2,
                latitude2,
                longitude2,
                now2,
            );
            &&& store2.contains_key(caller1)
            &&& store2.contains_key(caller2)
            &&& store2[caller1].registered_at <= store2[caller2].registered_at
        }),
{
    let store1 = register_post_store(store, caller1, role_code1, name1, latitude1, longitude1, now1);
    assert(store1.contains_key(caller1));
    assert(caller2 != caller1);
}

/// A rejected registration never mutates observable state: on any failed
/// call, the store and the event log both stay exactly as they were.
pub proof fn lemma_failed_register_preserves_state(
    store: Map<Seq<u8>, ParticipantView>,
    events: Seq<EventView>,
    caller: Seq<u8>,
    role_code: u8,
    name: Seq<u8>,
    latitude: i64,
    longitude: i64,
    now: u64,
)
    requires
        register_result(store, caller, role_code, name) is Err,
    ensures
        register_post_store(store, caller, role_code, name, latitude, longitude, now) == store,
        register_post_events(events, store, caller, role_code, name, latitude, longitude) == events,
{
}

} // verus!
