use scavenger::codec::{
    decode_participant, encode_participant, offset_decode, offset_encode, push_u64_be,
    read_u64_be,
};
use scavenger::types::{Address, Participant, Role};

fn sample(role: Role) -> Participant {
    Participant {
        address: Address { bytes: b"GA7QYNF7SOWQ".to_vec() },
        role,
        name: b"Alice".to_vec(),
        latitude: 407128,
        longitude: -740060,
        registered_at: 1_700_000_000,
    }
}

fn assert_same_fields(a: &Participant, b: &Participant) {
    assert_eq!(a.address.bytes, b.address.bytes);
    assert_eq!(a.role, b.role);
    assert_eq!(a.name, b.name);
    assert_eq!(a.latitude, b.latitude);
    assert_eq!(a.longitude, b.longitude);
    assert_eq!(a.registered_at, b.registered_at);
}

#[test]
fn round_trip_for_every_role_variant() {
    for role in [Role::Recycler, Role::Collector, Role::Manufacturer] {
        let original = sample(role);
        let bytes = encode_participant(&original);
        let decoded = decode_participant(&bytes).expect("canonical bytes must decode");
        assert_same_fields(&original, &decoded);
    }
}

#[test]
fn round_trip_at_coordinate_extremes() {
    let mut original = sample(Role::Collector);
    original.latitude = i64::MIN;
    original.longitude = i64::MAX;
    original.registered_at = u64::MAX;
    let bytes = encode_participant(&original);
    let decoded = decode_participant(&bytes).expect("canonical bytes must decode");
    assert_same_fields(&original, &decoded);
}

#[test]
fn u64_encoding_is_big_endian() {
    let mut out: Vec<u8> = Vec::new();
    push_u64_be(&mut out, 0x0102030405060708);
    assert_eq!(out, vec![1, 2, 3, 4, 5, 6, 7, 8]);
    assert_eq!(read_u64_be(&out, 0), 0x0102030405060708);

    let mut out: Vec<u8> = Vec::new();
    push_u64_be(&mut out, u64::MAX);
    assert_eq!(out, vec![0xff; 8]);
}

#[test]
fn coordinate_offsets_keep_order_and_value() {
    assert_eq!(offset_encode(i64::MIN), 0);
    assert_eq!(offset_encode(-1), 0x7fff_ffff_ffff_ffff);
    assert_eq!(offset_encode(0), 0x8000_0000_0000_0000);
    assert_eq!(offset_encode(i64::MAX), u64::MAX);
    for v in [i64::MIN, -740060, -1, 0, 1, 407128, i64::MAX] {
        assert_eq!(offset_decode(offset_encode(v)), v);
    }
}

#[test]
fn exact_encoding_of_a_known_record() {
    let p = Participant {
        address: Address { bytes: b"A".to_vec() },
        role: Role::Recycler,
        name: b"N".to_vec(),
        latitude: 0,
        longitude: -1,
        registered_at: 2,
    };
    let bytes = encode_participant(&p);
    let mut expected: Vec<u8> = Vec::new();
    expected.extend([0, 0, 0, 0, 0, 0, 0, 1]); // address length
    expected.push(b'A');
    expected.push(0); // role code of Recycler
    expected.extend([0, 0, 0, 0, 0, 0, 0, 1]); // name length
    expected.push(b'N');
    expected.extend([0x80, 0, 0, 0, 0, 0, 0, 0]); // latitude 0, offset
    expected.extend([0x7f, 0xff, 0xff, 0xff, 0xff, 0xff, 0xff, 0xff]); // longitude -1
    expected.extend([0, 0, 0, 0, 0, 0, 0, 2]); // registered_at
    assert_eq!(bytes, expected);
}

#[test]
fn decoding_rejects_malformed_bytes() {
    // Too short to hold even the address length.
    assert!(decode_participant(&vec![0; 7]).is_none());

    let good = encode_participant(&sample(Role::Recycler));

    // A truncated record.
    let mut truncated = good.clone();
    truncated.pop();
    assert!(decode_participant(&truncated).is_none());

    // A trailing byte breaks the canonical form.
    let mut padded = good.clone();
    padded.push(0);
    assert!(decode_participant(&padded).is_none());

    // An unknown role code is unrepresentable.
    let mut bad_role = good.clone();
    let tag_pos = 8 + b"GA7QYNF7SOWQ".len();
    assert_eq!(bad_role[tag_pos], 0);
    bad_role[tag_pos] = 3;
    assert!(decode_participant(&bad_role).is_none());
}
