use pq_authenticator::dil3key;
use pq_authenticator::envelope::{decode_envelope_bytes, encode_envelope};
use pq_authenticator::kyber768key;
use pq_authenticator::Error;

fn pattern(n: usize) -> Vec<u8> {
    (0..n).map(|i| (i * 7 + 3) as u8).collect()
}

#[test]
fn capacities_match_pqclean() {
    assert_eq!(
        dil3key::SECRET_KEY_BYTES,
        pqcrypto_dilithium::ffi::PQCLEAN_DILITHIUM3_CLEAN_CRYPTO_SECRETKEYBYTES
    );
    assert_eq!(
        kyber768key::SECRET_KEY_BYTES,
        pqcrypto_kyber::ffi::PQCLEAN_KYBER768_CLEAN_CRYPTO_SECRETKEYBYTES
    );
}

#[test]
fn dilithium_round_trip_at_several_lengths() {
    for n in [0usize, 1, 23, 24, 255, 256, 4031, dil3key::SECRET_KEY_BYTES] {
        let material = pattern(n);
        let key = dil3key::Key::new(b"dilithium3-sign", &material).unwrap();
        let bytes = key.serialize().unwrap();
        let back = dil3key::Key::deserialize(bytes).unwrap();
        assert_eq!(back, key);
        assert_eq!(back.get_material(), material.as_slice());
        assert_eq!(back.kind(), b"dilithium3-sign");
    }
}

#[test]
fn kyber_round_trip_at_several_lengths() {
    for n in [0usize, 2, 100, 2399, kyber768key::SECRET_KEY_BYTES] {
        let material = pattern(n);
        let key = kyber768key::Key::new(&pattern(16), &material).unwrap();
        let back = kyber768key::Key::deserialize(key.serialize().unwrap()).unwrap();
        assert_eq!(back, key);
        assert_eq!(back.get_material(), material.as_slice());
    }
}

#[test]
fn material_one_byte_over_capacity_is_refused() {
    assert_eq!(
        dil3key::Key::new(b"k", &pattern(dil3key::SECRET_KEY_BYTES + 1)),
        Err(Error::CapacityExceeded)
    );
    assert_eq!(
        kyber768key::Key::new(b"k", &pattern(kyber768key::SECRET_KEY_BYTES + 1)),
        Err(Error::CapacityExceeded)
    );
    assert!(kyber768key::Key::new(b"k", &pattern(kyber768key::SECRET_KEY_BYTES)).is_ok());
}

#[test]
fn tag_over_sixteen_bytes_is_refused() {
    assert_eq!(dil3key::Key::new(&pattern(17), b"m"), Err(Error::CapacityExceeded));
    assert!(dil3key::Key::new(&pattern(16), b"m").is_ok());
}

#[test]
fn envelope_bytes_are_a_cbor_map() {
    let key = kyber768key::Key::new(b"ab", &[1, 2, 3]).unwrap();
    let expected: Vec<u8> = vec![
        0xa2, 0x64, b'k', b'i', b'n', b'd', 0x42, b'a', b'b', 0x68, b'm', b'a', b't', b'e',
        b'r', b'i', b'a', b'l', 0x43, 1, 2, 3,
    ];
    assert_eq!(key.serialize().unwrap(), expected);
}

#[test]
fn envelope_length_heads_use_the_shortest_form() {
    let bytes = encode_envelope(b"", &pattern(300), 400).unwrap();
    assert_eq!(&bytes[..7], &[0xa2, 0x64, b'k', b'i', b'n', b'd', 0x40]);
    assert_eq!(&bytes[7..19], &[0x68, b'm', b'a', b't', b'e', b'r', b'i', b'a', b'l', 0x59, 0x01, 0x2c]);
    assert_eq!(bytes.len(), 19 + 300);
    let bytes = encode_envelope(b"", &pattern(30), 400).unwrap();
    assert_eq!(&bytes[16..18], &[0x58, 30]);
}

#[test]
fn entries_in_either_order_are_accepted() {
    let swapped: Vec<u8> = vec![
        0xa2, 0x68, b'm', b'a', b't', b'e', b'r', b'i', b'a', b'l', 0x43, 1, 2, 3, 0x64, b'k',
        b'i', b'n', b'd', 0x42, b'a', b'b',
    ];
    let key = kyber768key::Key::deserialize(swapped).unwrap();
    assert_eq!(key.kind(), b"ab");
    assert_eq!(key.get_material(), &[1, 2, 3]);
}

#[test]
fn malformed_envelopes_are_refused() {
    let good = kyber768key::Key::new(b"ab", &[1, 2, 3]).unwrap().serialize().unwrap();
    let mut trailing = good.clone();
    trailing.push(0);
    let mut short = good.clone();
    short.pop();
    let mut not_a_map = good.clone();
    not_a_map[0] = 0xa3;
    let mut unknown_name = good.clone();
    unknown_name[2] = b'K';
    let twice_kind: Vec<u8> = vec![
        0xa2, 0x64, b'k', b'i', b'n', b'd', 0x41, 1, 0x64, b'k', b'i', b'n', b'd', 0x41, 2,
    ];
    let long_head: Vec<u8> = vec![
        0xa2, 0x64, b'k', b'i', b'n', b'd', 0x58, 0x01, 7, 0x68, b'm', b'a', b't', b'e', b'r',
        b'i', b'a', b'l', 0x40,
    ];
    for bad in [vec![], trailing, short, not_a_map, unknown_name, twice_kind, long_head] {
        assert_eq!(kyber768key::Key::deserialize(bad), Err(Error::DecodingFailed));
    }
}

#[test]
fn material_over_the_target_capacity_is_refused() {
    let big = dil3key::Key::new(b"x", &pattern(kyber768key::SECRET_KEY_BYTES + 1)).unwrap();
    let bytes = big.serialize().unwrap();
    assert_eq!(kyber768key::Key::deserialize(bytes.clone()), Err(Error::DecodingFailed));
    assert!(dil3key::Key::deserialize(bytes).is_ok());
}

#[test]
fn oversize_fields_set_by_hand_do_not_encode() {
    let key = kyber768key::Key { kind: pattern(17), material: vec![] };
    assert_eq!(key.serialize(), Err(Error::EncodingFailed));
    assert_eq!(encode_envelope(b"", &pattern(11), 10), Err(Error::EncodingFailed));
}

#[test]
fn generic_codec_round_trip() {
    let bytes = encode_envelope(b"tag", &pattern(10), 10).unwrap();
    assert_eq!(decode_envelope_bytes(&bytes, 10), Ok((b"tag".to_vec(), pattern(10))));
    assert_eq!(decode_envelope_bytes(&bytes, 9), Err(Error::DecodingFailed));
}
