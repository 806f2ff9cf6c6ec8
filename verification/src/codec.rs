//! The canonical byte encoding of participant records, so every
//! implementation serializes a record to the same bytes and all observers
//! agree. Integers are big-endian; signed coordinates are carried as their
//! value offset into the unsigned range; variable-length fields are
//! length-prefixed; decoding rejects trailing bytes, so each record has
//! exactly one encoding.

use vstd::prelude::*;

use crate::types::{
    role_code_spec, role_from_code, role_of_code, valid_role_code, Address, Participant,
    ParticipantView,
};

verus! {

/// The eight big-endian bytes of an unsigned 64-bit value.
pub open spec fn u64_be(v: u64) -> Seq<u8> {
    seq![
        ((v >> 56) & 0xff) as u8,
        ((v >> 48) & 0xff) as u8,
        ((v >> 40) & 0xff) as u8,
        ((v >> 32) & 0xff) as u8,
        ((v >> 24) & 0xff) as u8,
        ((v >> 16) & 0xff) as u8,
        ((v >> 8) & 0xff) as u8,
        (v & 0xff) as u8,
    ]
}

/// The unsigned 64-bit value eight big-endian bytes stand for.
pub open spec fn be_u64(s: Seq<u8>) -> u64
    recommends
        s.len() == 8,
{
    ((s[0] as u64) << 56) | ((s[1] as u64) << 48) | ((s[2] as u64) << 40) | ((s[3] as u64) << 32)
        | ((s[4] as u64) << 24) | ((s[5] as u64) << 16) | ((s[6] as u64) << 8) | (s[7] as u64)
}

/// Reading back the eight big-endian bytes of a value gives the value.
pub proof fn lemma_u64_be_round(v: u64)
    ensures
        be_u64(u64_be(v)) == v,
{
    assert((((((v >> 56) & 0xff) as u8) as u64) << 56) | (((((v >> 48) & 0xff) as u8) as u64)
        << 48) | (((((v >> 40) & 0xff) as u8) as u64) << 40) | (((((v >> 32) & 0xff) as u8) as u64)
        << 32) | (((((v >> 24) & 0xff) as u8) as u64) << 24) | (((((v >> 16) & 0xff) as u8) as u64)
        << 16) | (((((v >> 8) & 0xff) as u8) as u64) << 8) | (((v & 0xff) as u8) as u64) == v)
        by (bit_vector);
}

/// The signed 64-bit value shifted into the unsigned range, keeping order.
pub open spec fn offset_of_i64(v: i64) -> u64 {
    (v + 0x8000000000000000) as u64
}

/// The signed 64-bit value an offset stands for.
pub open spec fn i64_of_offset(u: u64) -> i64 {
    (u - 0x8000000000000000) as i64
}

/// Shifting a value into the unsigned range and back gives the value.
pub proof fn lemma_offset_round(v: i64)
    ensures
        i64_of_offset(offset_of_i64(v)) == v,
{
}

/// Appends the eight big-endian bytes of a value.
pub fn push_u64_be(out: &mut Vec<u8>, v: u64)
    ensures
        final(out)@ == old(out)@ + u64_be(v),
{
    assert((v >> 56) & 0xff < 256 && (v >> 48) & 0xff < 256 && (v >> 40) & 0xff < 256 && (v >> 32)
        & 0xff < 256 && (v >> 24) & 0xff < 256 && (v >> 16) & 0xff < 256 && (v >> 8) & 0xff < 256
        && v & 0xff < 256) by (bit_vector);
    out.push(((v >> 56) & 0xff) as u8);
    out.push(((v >> 48) & 0xff) as u8);
    out.push(((v >> 40) & 0xff) as u8);
    out.push(((v >> 32) & 0xff) as u8);
    out.push(((v >> 24) & 0xff) as u8);
    out.push(((v >> 16) & 0xff) as u8);
    out.push(((v >> 8) & 0xff) as u8);
    out.push((v & 0xff) as u8);
    assert(out@ =~= old(out)@ + u64_be(v));
}

/// Appends a copy of a byte sequence.
pub fn push_bytes(out: &mut Vec<u8>, bytes: &Vec<u8>)
    ensures
        final(out)@ == old(out)@ + bytes@,
{
    let mut i: usize = 0;
    while i < bytes.len()
        invariant
            i <= bytes.len(),
            out@ == old(out)@ + bytes@.subrange(0, i as int),
        decreases bytes.len() - i,
    {
        out.push(bytes[i]);
        assert(out@ =~= old(out)@ + bytes@.subrange(0, i + 1));
        i = i + 1;
    }
    assert(out@ =~= old(out)@ + bytes@);
}

/// Reads the unsigned 64-bit value at a position.
pub fn read_u64_be(bytes: &Vec<u8>, off: usize) -> (r: u64)
    requires
        off + 8 <= bytes@.len(),
    ensures
        r == be_u64(bytes@.subrange(off as int, off + 8)),
{
    let n = bytes.len();
    assert(off + 8 <= n);
    let b0 = bytes[off];
    let b1 = bytes[off + 1];
    let b2 = bytes[off + 2];
    let b3 = bytes[off + 3];
    let b4 = bytes[off + 4];
    let b5 = bytes[off + 5];
    let b6 = bytes[off + 6];
    let b7 = bytes[off + 7];
    let r: u64 = ((b0 as u64) << 56) | ((b1 as u64) << 48) | ((b2 as u64) << 40) | ((b3 as u64)
        << 32) | ((b4 as u64) << 24) | ((b5 as u64) << 16) | ((b6 as u64) << 8) | (b7 as u64);
    proof {
        let s = bytes@.subrange(off as int, off + 8);
        assert(s[0] == b0 && s[1] == b1 && s[2] == b2 && s[3] == b3 && s[4] == b4 && s[5] == b5
            && s[6] == b6 && s[7] == b7);
    }
    r
}

/// Shifts a signed coordinate into the unsigned range for encoding.
pub fn offset_encode(v: i64) -> (u: u64)
    ensures
        u == offset_of_i64(v),
{
    let wide: i128 = (v as i128) + 0x8000000000000000i128;
    wide as u64
}

/// Shifts an encoded coordinate back into the signed range.
pub fn offset_decode(u: u64) -> (v: i64)
    ensures
        v == i64_of_offset(u),
{
    let wide: i128 = (u as i128) - 0x8000000000000000i128;
    wide as i64
}

/// Copies the bytes of a half-open range.
pub fn subvec(bytes: &Vec<u8>, start: usize, end: usize) -> (r: Vec<u8>)
    requires
        start <= end <= bytes@.len(),
    ensures
        r@ == bytes@.subrange(start as int, end as int),
{
    let mut out: Vec<u8> = Vec::new();
    let mut i: usize = start;
    while i < end
        invariant
            start <= i <= end <= bytes@.len(),
            out@ == bytes@.subrange(start as int, i as int),
        decreases end - i,
    {
        out.push(bytes[i]);
        assert(out@ =~= bytes@.subrange(start as int, i + 1));
        i = i + 1;
    }
    out
}

/// The canonical bytes of a participant record: length-prefixed address,
/// role code, length-prefixed name, offset latitude and longitude, and the
/// registration timestamp.
pub open spec fn spec_encode_participant(p: ParticipantView) -> Seq<u8> {
    u64_be(p.address.len() as u64) + p.address + seq![role_code_spec(p.role)] + u64_be(
        p.name.len() as u64,
    ) + p.name + u64_be(offset_of_i64(p.latitude)) + u64_be(offset_of_i64(p.longitude)) + u64_be(
        p.registered_at,
    )
}

/// The record a byte sequence canonically stands for, or nothing: a
/// malformed length, an unknown role code, or any trailing bytes make the
/// whole sequence invalid.
pub open spec fn spec_decode_participant(s: Seq<u8>) -> Option<ParticipantView> {
    if s.len() < 8 {
        None
    } else {
        let alen = be_u64(s.subrange(0, 8)) as int;
        if s.len() < 9 + alen {
            None
        } else {
            let tag = s[8 + alen];
            if !valid_role_code(tag) {
                None
            } else {
                if s.len() < 17 + alen {
                    None
                } else {
                    let nlen = be_u64(s.subrange(9 + alen, 17 + alen)) as int;
                    if s.len() != 41 + alen + nlen {
                        None
                    } else {
                        Some(
                            ParticipantView {
                                address: s.subrange(8, 8 + alen),
                                role: role_of_code(tag),
                                name: s.subrange(17 + alen, 17 + alen + nlen),
                                latitude: i64_of_offset(
                                    be_u64(s.subrange(17 + alen + nlen, 25 + alen + nlen)),
                                ),
                                longitude: i64_of_offset(
                                    be_u64(s.subrange(25 + alen + nlen, 33 + alen + nlen)),
                                ),
                                registered_at: be_u64(
                                    s.subrange(33 + alen + nlen, 41 + alen + nlen),
                                ),
                            },
                        )
                    }
                }
            }
        }
    }
}

/// Decoding the canonical bytes of any record gives back the record, for
/// every role variant.
pub proof fn lemma_participant_round_trip(p: ParticipantView)
    requires
        p.address.len() < 0x10000000000000000,
        p.name.len() < 0x10000000000000000,
    ensures
        spec_decode_participant(spec_encode_participant(p)) == Some(p),
{
    let alen = p.address.len() as int;
    let nlen = p.name.len() as int;
    let a = u64_be(p.address.len() as u64);
    let b = p.address;
    let c = seq![role_code_spec(p.role)];
    let d = u64_be(p.name.len() as u64);
    let f = p.name;
    let g = u64_be(offset_of_i64(p.latitude));
    let h = u64_be(offset_of_i64(p.longitude));
    let j = u64_be(p.registered_at);
    let e = spec_encode_participant(p);
    assert(e == a + b + c + d + f + g + h + j);
    assert(e.len() == 41 + alen + nlen);
    assert(e.subrange(0, 8) =~= a);
    lemma_u64_be_round(p.address.len() as u64);
    assert(be_u64(e.subrange(0, 8)) as int == alen);
    assert(e.subrange(8, 8 + alen) =~= b);
    assert(e[8 + alen] == role_code_spec(p.role));
    assert(valid_role_code(role_code_spec(p.role)));
    assert(role_of_code(role_code_spec(p.role)) == p.role);
    assert(e.subrange(9 + alen, 17 + alen) =~= d);
    lemma_u64_be_round(p.name.len() as u64);
    assert(be_u64(e.subrange(9 + alen, 17 + alen)) as int == nlen);
    assert(e.subrange(17 + alen, 17 + alen + nlen) =~= f);
    assert(e.subrange(17 + alen + nlen, 25 + alen + nlen) =~= g);
    lemma_u64_be_round(offset_of_i64(p.latitude));
    lemma_offset_round(p.latitude);
    assert(e.subrange(25 + alen + nlen, 33 + alen + nlen) =~= h);
    lemma_u64_be_round(offset_of_i64(p.longitude));
    lemma_offset_round(p.longitude);
    assert(e.subrange(33 + alen + nlen, 41 + alen + nlen) =~= j);
    lemma_u64_be_round(p.registered_at);
    assert(spec_decode_participant(e) == Some(p));
}

/// Serializes a record to its canonical bytes.
pub fn encode_participant(p: &Participant) -> (r: Vec<u8>)
    ensures
        r@ == spec_encode_participant(p@),
{
    let mut out: Vec<u8> = Vec::new();
    push_u64_be(&mut out, p.address.bytes.len() as u64);
    push_bytes(&mut out, &p.address.bytes);
    out.push(p.role.code());
    push_u64_be(&mut out, p.name.len() as u64);
    push_bytes(&mut out, &p.name);
    push_u64_be(&mut out, offset_encode(p.latitude));
    push_u64_be(&mut out, offset_encode(p.longitude));
    push_u64_be(&mut out, p.registered_at);
    assert(out@ =~= spec_encode_participant(p@));
    out
}

/// Parses canonical bytes back into a record, or returns `None` on any
/// deviation from the canonical form.
pub fn decode_participant(bytes: &Vec<u8>) -> (r: Option<Participant>)
    ensures
        match r {
            Some(p) => spec_decode_participant(bytes@) == Some(p@),
            None => spec_decode_participant(bytes@) is None,
        },
{
    let n = bytes.len();
    if n < 8 {
        return None;
    }
    let alen64 = read_u64_be(bytes, 0);
    if (alen64 as u128) + 9 > (n as u128) {
        return None;
    }
    let alen = alen64 as usize;
    let tag = bytes[8 + alen];
    let role = match role_from_code(tag) {
        Ok(role) => role,
        Err(_) => {
            return None;
        },
    };
    if (n as u128) < 17 + (alen as u128) {
        return None;
    }
    let nlen64 = read_u64_be(bytes, 9 + alen);
    if (n as u128) != 41 + (alen as u128) + (nlen64 as u128) {
        return None;
    }
    let nlen = nlen64 as usize;
    let addr = subvec(bytes, 8, 8 + alen);
    let name = subvec(bytes, 17 + alen, 17 + alen + nlen);
    let latitude = offset_decode(read_u64_be(bytes, 17 + alen + nlen));
    let longitude = offset_decode(read_u64_be(bytes, 25 + alen + nlen));
    let registered_at = read_u64_be(bytes, 33 + alen + nlen);
    let p = Participant {
        address: Address { bytes: addr },
        role,
        name,
        latitude,
        longitude,
        registered_at,
    };
    assert(spec_decode_participant(bytes@) == Some(p@));
    Some(p)
}

} // verus!
