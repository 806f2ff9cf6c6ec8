//! A minimal on-ledger registry for participants in a material-recovery
//! network (recyclers, collectors, manufacturers).
//!
//! The crate holds the invariant-bearing participant record, the store that
//! maps each identity to its record, the append-only event log that announces
//! every successful registration, and the canonical byte encoding that keeps
//! records identical across implementations. The host environment that
//! supplies authenticated identities, a logical clock, durable storage and an
//! event channel stays outside: callers hand those values in as plain data.

pub mod codec;
pub mod events;
pub mod registry;
pub mod store;
pub mod types;

pub use events::{emit_participant_registered, EventLog, RegistrationEvent};
pub use registry::register;
pub use store::ParticipantStore;
pub use types::{Address, Error, Participant, Role};
