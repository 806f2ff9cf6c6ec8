//! The participant data model: roles, identities, records, and the error
//! kinds that registration and the store report.

use vstd::prelude::*;

verus! {

/// Longest name (in bytes) the host environment accepts in a record.
pub const MAX_NAME_LEN: usize = 64;

/// Participant role in the material-recovery network: a closed enumeration,
/// with no default or catch-all variant.
#[derive(Clone, Copy, Debug, PartialEq, Eq, Structural)]
pub enum Role {
    Recycler,
    Collector,
    Manufacturer,
}

/// Every failure the registry surfaces to a caller.
#[derive(Clone, Copy, Debug, PartialEq, Eq, Structural)]
pub enum Error {
    /// The supplied role code does not name one of the three variants.
    InvalidRole,
    /// The name is empty or longer than the host's bound.
    InvalidName,
    /// The caller identity already has a stored participant.
    AlreadyRegistered,
    /// A store-level write found the key already present.
    DuplicateParticipant,
    /// A lookup found no record under the given address.
    NotFound,
    /// The event channel rejected the payload.
    PublishFailure,
}

/// The wire code of each role variant.
pub open spec fn role_code_spec(r: Role) -> u8 {
    match r {
        Role::Recycler => 0,
        Role::Collector => 1,
        Role::Manufacturer => 2,
    }
}

/// Whether a wire code names one of the three role variants.
pub open spec fn valid_role_code(c: u8) -> bool {
    c < 3
}

/// The role named by a valid wire code.
pub open spec fn role_of_code(c: u8) -> Role {
    if c == 0 {
        Role::Recycler
    } else if c == 1 {
        Role::Collector
    } else {
        Role::Manufacturer
    }
}

impl Role {
    /// The wire code of this role.
    pub fn code(&self) -> (c: u8)
        ensures
            c == role_code_spec(*self),
    {
        match self {
            Role::Recycler => 0,
            Role::Collector => 1,
            Role::Manufacturer => 2,
        }
    }
}

/// Parses a wire code into a role; any code outside the closed set is a
/// validation error, never a default.
pub fn role_from_code(c: u8) -> (r: Result<Role, Error>)
    ensures
        valid_role_code(c) ==> r == Ok::<Role, Error>(role_of_code(c)),
        !valid_role_code(c) ==> r == Err::<Role, Error>(Error::InvalidRole),
{
    if c == 0 {
        Ok(Role::Recycler)
    } else if c == 1 {
        Ok(Role::Collector)
    } else if c == 2 {
        Ok(Role::Manufacturer)
    } else {
        Err(Error::InvalidRole)
    }
}

/// An opaque identity handle, supplied by the host's authenticated context.
#[derive(Clone, Debug)]
pub struct Address {
    pub bytes: Vec<u8>,
}

impl View for Address {
    type V = Seq<u8>;

    open spec fn view(&self) -> Seq<u8> {
        self.bytes@
    }
}

/// Whether a name is acceptable: non-empty and within the host's bound.
pub open spec fn valid_name(name: Seq<u8>) -> bool {
    0 < name.len() <= MAX_NAME_LEN
}

/// One registered actor in the recovery network.
#[derive(Clone, Debug)]
pub struct Participant {
    pub address: Address,
    pub role: Role,
    pub name: Vec<u8>,
    pub latitude: i64,
    pub longitude: i64,
    pub registered_at: u64,
}

/// The mathematical value of a participant record.
#[verifier::ext_equal]
pub ghost struct ParticipantView {
    pub address: Seq<u8>,
    pub role: Role,
    pub name: Seq<u8>,
    pub latitude: i64,
    pub longitude: i64,
    pub registered_at: u64,
}

impl View for Participant {
    type V = ParticipantView;

    open spec fn view(&self) -> ParticipantView {
        ParticipantView {
            address: self.address@,
            role: self.role,
            name: self.name@,
            latitude: self.latitude,
            longitude: self.longitude,
            registered_at: self.registered_at,
        }
    }
}

/// Copies a byte vector; the copy's contents equal the original's.
pub fn clone_bytes(v: &Vec<u8>) -> (r: Vec<u8>)
    ensures
        r@ == v@,
{
    let mut out: Vec<u8> = Vec::new();
    let mut i: usize = 0;
    while i < v.len()
        invariant
            i <= v.len(),
            out@ == v@.subrange(0, i as int),
        decreases v.len() - i,
    {
        out.push(v[i]);
        i = i + 1;
    }
    assert(out@ =~= v@);
    out
}

/// Copies an address handle.
pub fn clone_address(a: &Address) -> (r: Address)
    ensures
        r@ == a@,
{
    Address { bytes: clone_bytes(&a.bytes) }
}

/// Compares two byte vectors for equality of contents.
pub fn bytes_eq(a: &Vec<u8>, b: &Vec<u8>) -> (r: bool)
    ensures
        r == (a@ == b@),
{
    if a.len() != b.len() {
        return false;
    }
    let mut i: usize = 0;
    while i < a.len()
        invariant
            i <= a.len(),
            a.len() == b.len(),
            forall|k: int| 0 <= k < i ==> a@[k] == b@[k],
        decreases a.len() - i,
    {
        if a[i] != b[i] {
            return false;
        }
        i = i + 1;
    }
    assert(a@ =~= b@);
    true
}

/// Compares two identity handles.
pub fn address_eq(a: &Address, b: &Address) -> (r: bool)
    ensures
        r == (a@ == b@),
{
    bytes_eq(&a.bytes, &b.bytes)
}

} // verus!
