//! The event notifier: an append-only log of registration events under one
//! fixed, versioned topic tag, so every announcement is structurally
//! identical. The host's channel bounds the payload; an oversized payload is
//! rejected, never truncated.

use vstd::prelude::*;

use crate::types::{clone_address, clone_bytes, Address, Error, Role};

verus! {

/// Largest event payload (in encoded bytes) the host's channel carries.
pub const MAX_EVENT_PAYLOAD: usize = 256;

/// Encoded size of a registration payload: one role byte, an eight-byte name
/// length, the name itself, and eight bytes each for latitude and longitude.
pub open spec fn payload_size(name: Seq<u8>) -> int {
    25 + name.len() as int
}

/// Whether a payload with this name fits the channel's bound.
pub open spec fn payload_fits(name: Seq<u8>) -> bool {
    payload_size(name) <= MAX_EVENT_PAYLOAD
}

/// Runtime check that a payload with this name fits the channel's bound.
pub fn check_payload_fits(name: &Vec<u8>) -> (r: bool)
    ensures
        r == payload_fits(name@),
{
    name.len() <= MAX_EVENT_PAYLOAD - 25
}

/// The fixed topic tag every registration event is published under; changing
/// it is a breaking protocol change.
pub open spec fn topic_tag_spec() -> Seq<u8> {
    seq!['r' as u8, 'e' as u8, 'g' as u8]
}

/// Builds the fixed topic tag.
pub fn topic_tag() -> (t: Vec<u8>)
    ensures
        t@ == topic_tag_spec(),
{
    let mut t: Vec<u8> = Vec::new();
    t.push('r' as u8);
    t.push('e' as u8);
    t.push('g' as u8);
    proof {
        assert(t@ =~= topic_tag_spec());
    }
    t
}

/// One published registration notification: the topic pair and the payload
/// tuple.
pub struct RegistrationEvent {
    pub topic: Vec<u8>,
    pub address: Address,
    pub role: Role,
    pub name: Vec<u8>,
    pub latitude: i64,
    pub longitude: i64,
}

/// The mathematical value of a registration event.
#[verifier::ext_equal]
pub ghost struct EventView {
    pub topic: Seq<u8>,
    pub address: Seq<u8>,
    pub role: Role,
    pub name: Seq<u8>,
    pub latitude: i64,
    pub longitude: i64,
}

impl View for RegistrationEvent {
    type V = EventView;

    open spec fn view(&self) -> EventView {
        EventView {
            topic: self.topic@,
            address: self.address@,
            role: self.role,
            name: self.name@,
            latitude: self.latitude,
            longitude: self.longitude,
        }
    }
}

/// The event a successful registration publishes.
pub open spec fn registration_event(
    address: Seq<u8>,
    role: Role,
    name: Seq<u8>,
    latitude: i64,
    longitude: i64,
) -> EventView {
    EventView { topic: topic_tag_spec(), address, role, name, latitude, longitude }
}

/// The append-only stream of registration events, in publish order.
pub struct EventLog {
    events: Vec<RegistrationEvent>,
}

impl View for EventLog {
    type V = Seq<EventView>;

    closed spec fn view(&self) -> Seq<EventView> {
        self.events@.map_values(|e: RegistrationEvent| e@)
    }
}

impl EventLog {
    /// An empty log.
    pub fn new() -> (log: EventLog)
        ensures
            log@ == Seq::<EventView>::empty(),
    {
        let log = EventLog { events: Vec::new() };
        proof {
            assert(log@ =~= Seq::<EventView>::empty());
        }
        log
    }

    /// How many events have been published.
    pub fn len(&self) -> (n: usize)
        ensures
            n == self@.len(),
    {
        self.events.len()
    }

    /// The event at a position, oldest first, or `None` past the end.
    pub fn event(&self, i: usize) -> (r: Option<&RegistrationEvent>)
        ensures
            match r {
                Some(e) => i < self@.len() && e@ == self@[i as int],
                None => i >= self@.len(),
            },
    {
        if i < self.events.len() {
            Some(&self.events[i])
        } else {
            None
        }
    }
}

/// Publishes the event announcing a new participant, under the fixed topic
/// tag paired with the address. Fails with `PublishFailure`, appending
/// nothing, exactly when the payload breaks the channel's bound.
pub fn emit_participant_registered(
    log: &mut EventLog,
    address: &Address,
    role: Role,
    name: &Vec<u8>,
    latitude: i64,
    longitude: i64,
) -> (r: Result<(), Error>)
    ensures
        payload_fits(name@) ==> r == Ok::<(), Error>(()) && final(log)@ == old(log)@.push(
            registration_event(address@, role, name@, latitude, longitude),
        ),
        !payload_fits(name@) ==> r == Err::<(), Error>(Error::PublishFailure) && final(log)@ == old(
            log,
        )@,
{
    if !check_payload_fits(name) {
        return Err(Error::PublishFailure);
    }
    let event = RegistrationEvent {
        topic: topic_tag(),
        address: clone_address(address),
        role,
        name: clone_bytes(name),
        latitude,
        longitude,
    };
    log.events.push(event);
    proof {
        assert(log@ =~= old(log)@.push(
            registration_event(address@, role, name@, latitude, longitude),
        ));
    }
    Ok(())
}

} // verus!
