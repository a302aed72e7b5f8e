use pq_authenticator::auth_data::{
    deserialize_authenticator_data, AuthenticatorData, COSE_KEY_LENGTH,
    FLAG_ATTESTED_CREDENTIAL_DATA, FLAG_EXTENSION_DATA, FLAG_USER_PRESENT, FLAG_USER_VERIFIED,
    MAX_CREDENTIAL_ID_LENGTH,
};
use pq_authenticator::Error;

fn header(flags: u8) -> Vec<u8> {
    let mut d: Vec<u8> = (0..32).map(|i| i as u8).collect();
    d.push(flags);
    d.extend_from_slice(&[0x01, 0x02, 0x03, 0x04]);
    d
}

fn attested(flags: u8, id: &[u8], declared_len: u16, public_key: &[u8]) -> Vec<u8> {
    let mut d = header(flags | FLAG_ATTESTED_CREDENTIAL_DATA);
    d.extend_from_slice(&[0xaa; 16]);
    d.extend_from_slice(&declared_len.to_be_bytes());
    d.extend_from_slice(id);
    d.extend_from_slice(public_key);
    d
}

// {1: 2, 3: -7}
const SMALL_KEY: [u8; 5] = [0xa2, 0x01, 0x02, 0x03, 0x26];

// {"credProtect": 2}
const CRED_PROTECT: [u8; 14] = [
    0xa1, 0x6b, b'c', b'r', b'e', b'd', b'P', b'r', b'o', b't', b'e', b'c', b't', 0x02,
];

#[test]
fn limits_match_ctap_types() {
    assert_eq!(MAX_CREDENTIAL_ID_LENGTH, ctap_types::sizes::MAX_CREDENTIAL_ID_LENGTH);
    assert_eq!(COSE_KEY_LENGTH, ctap_types::sizes::COSE_KEY_LENGTH);
}

#[test]
fn short_buffers_are_truncated() {
    let full = header(FLAG_USER_PRESENT);
    for n in 0..37 {
        assert_eq!(deserialize_authenticator_data(&full[..n]), Err(Error::Truncated));
    }
}

#[test]
fn header_only_record() {
    let d = header(FLAG_USER_PRESENT | FLAG_USER_VERIFIED);
    let a: AuthenticatorData = deserialize_authenticator_data(&d).unwrap();
    assert_eq!(a.rp_id_hash, (0..32).map(|i| i as u8).collect::<Vec<u8>>());
    assert_eq!(a.flags, 0x05);
    assert_eq!(a.sign_count, 0x01020304);
    assert!(a.attested_credential_data.is_none());
    assert!(a.extensions.is_none());
}

#[test]
fn reserved_flag_bits_pass_through() {
    let d = header(0x3a);
    assert_eq!(deserialize_authenticator_data(&d).unwrap().flags, 0x3a);
}

#[test]
fn trailing_byte_is_rejected() {
    let mut d = header(FLAG_USER_PRESENT);
    d.push(0);
    assert_eq!(deserialize_authenticator_data(&d), Err(Error::InvalidData));
}

#[test]
fn attested_credential_is_read_exactly() {
    let d = attested(FLAG_USER_PRESENT, &[9, 8, 7, 6], 4, &SMALL_KEY);
    let a = deserialize_authenticator_data(&d).unwrap();
    let c = a.attested_credential_data.unwrap();
    assert_eq!(c.aaguid, vec![0xaa; 16]);
    assert_eq!(c.credential_id, vec![9, 8, 7, 6]);
    assert_eq!(c.credential_public_key, SMALL_KEY.to_vec());
    assert!(a.extensions.is_none());
}

#[test]
fn credential_id_one_over_the_limit_is_invalid() {
    let id = vec![1u8; MAX_CREDENTIAL_ID_LENGTH + 1];
    let d = attested(0, &id, (MAX_CREDENTIAL_ID_LENGTH + 1) as u16, &SMALL_KEY);
    assert_eq!(deserialize_authenticator_data(&d), Err(Error::InvalidData));
    let id = vec![1u8; MAX_CREDENTIAL_ID_LENGTH];
    let d = attested(0, &id, MAX_CREDENTIAL_ID_LENGTH as u16, &SMALL_KEY);
    assert!(deserialize_authenticator_data(&d).is_ok());
}

#[test]
fn missing_credential_bytes_are_truncated() {
    let d = attested(0, &[1, 2], 4, &[]);
    assert_eq!(deserialize_authenticator_data(&d), Err(Error::Truncated));
    let d = header(FLAG_ATTESTED_CREDENTIAL_DATA);
    assert_eq!(deserialize_authenticator_data(&d), Err(Error::Truncated));
}

#[test]
fn undecodable_public_key_is_invalid() {
    let d = attested(0, &[1, 2, 3, 4], 4, &[0xff]);
    assert_eq!(deserialize_authenticator_data(&d), Err(Error::InvalidData));
    let d = attested(0, &[1, 2, 3, 4], 4, &[]);
    assert_eq!(deserialize_authenticator_data(&d), Err(Error::InvalidData));
}

#[test]
fn public_key_over_the_cose_bound_is_invalid() {
    let mut big = vec![0x59, 0x01, 0x2c];
    big.extend(std::iter::repeat(5u8).take(300));
    let d = attested(0, &[1], 1, &big);
    assert_eq!(deserialize_authenticator_data(&d), Err(Error::InvalidData));
    let mut fits = vec![0x59, 0x00, 0xfd];
    fits.extend(std::iter::repeat(5u8).take(253));
    assert_eq!(fits.len(), COSE_KEY_LENGTH);
    let d = attested(0, &[1], 1, &fits);
    let c = deserialize_authenticator_data(&d).unwrap().attested_credential_data.unwrap();
    assert_eq!(c.credential_public_key, fits);
}

#[test]
fn bytes_after_the_public_key_are_rejected() {
    let mut d = attested(0, &[1, 2, 3, 4], 4, &SMALL_KEY);
    d.push(0x00);
    assert_eq!(deserialize_authenticator_data(&d), Err(Error::InvalidData));
}

#[test]
fn extensions_block_is_kept() {
    let mut d = header(FLAG_EXTENSION_DATA);
    d.extend_from_slice(&CRED_PROTECT);
    let a = deserialize_authenticator_data(&d).unwrap();
    assert_eq!(a.extensions, Some(CRED_PROTECT.to_vec()));
    assert!(a.attested_credential_data.is_none());
    d.pop();
    assert!(deserialize_authenticator_data(&d).is_err());
}

#[test]
fn extension_errors_are_truncated() {
    let mut d = header(FLAG_EXTENSION_DATA);
    d.extend_from_slice(&CRED_PROTECT[..5]);
    assert_eq!(deserialize_authenticator_data(&d), Err(Error::Truncated));
    let d = header(FLAG_EXTENSION_DATA);
    assert_eq!(deserialize_authenticator_data(&d), Err(Error::Truncated));
    let mut d = header(FLAG_EXTENSION_DATA);
    d.extend_from_slice(&CRED_PROTECT);
    d.push(0x01);
    assert_eq!(deserialize_authenticator_data(&d), Err(Error::Truncated));
}

#[test]
fn credential_then_extensions() {
    let mut d = attested(FLAG_EXTENSION_DATA, &[7; 3], 3, &SMALL_KEY);
    d.extend_from_slice(&CRED_PROTECT);
    let a = deserialize_authenticator_data(&d).unwrap();
    assert_eq!(a.attested_credential_data.unwrap().credential_public_key, SMALL_KEY.to_vec());
    assert_eq!(a.extensions, Some(CRED_PROTECT.to_vec()));
}
