//! Decoder of the CTAP2 authenticator-data record: 32-byte relying-party id
//! hash, one flags byte, a big-endian 32-bit signature counter, then an
//! optional attested-credential block and an optional extensions block.
use crate::cbor::{cbor_item_len, probe_cbor_item};
use crate::error::Error;
use vstd::prelude::*;
use vstd::slice::{slice_subrange, slice_to_vec};

verus! {

/// Bytes of the relying-party id hash.
pub const RP_ID_HASH_LENGTH: usize = 32;

/// Bytes of hash, flags and counter together.
pub const HEADER_LENGTH: usize = 37;

/// Bytes of an authenticator's AAGUID.
pub const AAGUID_LENGTH: usize = 16;

/// Longest credential id accepted, as ctap-types' `MAX_CREDENTIAL_ID_LENGTH`.
pub const MAX_CREDENTIAL_ID_LENGTH: usize = 255;

/// Longest credential public key accepted, as ctap-types' `COSE_KEY_LENGTH`.
pub const COSE_KEY_LENGTH: usize = 256;

/// Flag bit: the user was present.
pub const FLAG_USER_PRESENT: u8 = 0x01;

/// Flag bit: the user was verified.
pub const FLAG_USER_VERIFIED: u8 = 0x04;

/// Flag bit: attested credential data follows the counter.
pub const FLAG_ATTESTED_CREDENTIAL_DATA: u8 = 0x40;

/// Flag bit: an extensions block ends the record.
pub const FLAG_EXTENSION_DATA: u8 = 0x80;

/// The credential block of a record.
#[derive(Clone, Debug, PartialEq, Eq)]
pub struct AttestedCredentialData {
    pub aaguid: Vec<u8>,
    pub credential_id: Vec<u8>,
    pub credential_public_key: Vec<u8>,
}

/// A decoded authenticator-data record. The extensions block is kept as the
/// bytes of the one CBOR value it is.
#[derive(Clone, Debug, PartialEq, Eq)]
pub struct AuthenticatorData {
    pub rp_id_hash: Vec<u8>,
    pub flags: u8,
    pub sign_count: u32,
    pub attested_credential_data: Option<AttestedCredentialData>,
    pub extensions: Option<Vec<u8>>,
}

/// The contents of an `AttestedCredentialData`.
pub struct AttestedCredentialModel {
    pub aaguid: Seq<u8>,
    pub credential_id: Seq<u8>,
    pub credential_public_key: Seq<u8>,
}

/// The contents of an `AuthenticatorData`.
pub struct AuthenticatorDataModel {
    pub rp_id_hash: Seq<u8>,
    pub flags: u8,
    pub sign_count: nat,
    pub attested_credential_data: Option<AttestedCredentialModel>,
    pub extensions: Option<Seq<u8>>,
}

impl View for AttestedCredentialData {
    type V = AttestedCredentialModel;

    open spec fn view(&self) -> AttestedCredentialModel {
        AttestedCredentialModel {
            aaguid: self.aaguid@,
            credential_id: self.credential_id@,
            credential_public_key: self.credential_public_key@,
        }
    }
}

impl View for AuthenticatorData {
    type V = AuthenticatorDataModel;

    open spec fn view(&self) -> AuthenticatorDataModel {
        AuthenticatorDataModel {
            rp_id_hash: self.rp_id_hash@,
            flags: self.flags,
            sign_count: self.sign_count as nat,
            attested_credential_data: match self.attested_credential_data {
                Some(a) => Some(a@),
                None => None,
            },
            extensions: match self.extensions {
                Some(x) => Some(x@),
                None => None,
            },
        }
    }
}

/// The big-endian number in the two bytes at `pos`.
pub open spec fn be_u16(b: Seq<u8>, pos: int) -> nat {
    (b[pos] * 256 + b[pos + 1]) as nat
}

/// The big-endian number in the four bytes at `pos`.
pub open spec fn be_u32(b: Seq<u8>, pos: int) -> nat {
    (((b[pos] * 256 + b[pos + 1]) * 256 + b[pos + 2]) * 256 + b[pos + 3]) as nat
}

/// Where the credential id length ends.
pub open spec fn id_length_end() -> int {
    HEADER_LENGTH + AAGUID_LENGTH + 2
}

/// The bytes from `start` on that the public-key probe may look at: at most
/// `COSE_KEY_LENGTH` of them.
pub open spec fn probe_window(d: Seq<u8>, start: int) -> Seq<u8> {
    if d.len() - start <= COSE_KEY_LENGTH {
        d.subrange(start, d.len() as int)
    } else {
        d.subrange(start, start + COSE_KEY_LENGTH)
    }
}

/// The attested-credential block that starts after the header of `d`, and
/// where it ends.
pub open spec fn attested_at(d: Seq<u8>) -> Result<(AttestedCredentialModel, int), Error> {
    if d.len() < id_length_end() {
        Err(Error::Truncated)
    } else {
        let id_len = be_u16(d, id_length_end() - 2);
        let start = id_length_end() + id_len;
        if id_len > MAX_CREDENTIAL_ID_LENGTH {
            Err(Error::InvalidData)
        } else if d.len() < start {
            Err(Error::Truncated)
        } else {
            match cbor_item_len(probe_window(d, start)) {
                Some(n) => Ok(
                    (
                        AttestedCredentialModel {
                            aaguid: d.subrange(HEADER_LENGTH as int, id_length_end() - 2),
                            credential_id: d.subrange(id_length_end(), start),
                            credential_public_key: d.subrange(start, start + n),
                        },
                        start + n,
                    ),
                ),
                None => Err(Error::InvalidData),
            }
        }
    }
}

/// The extensions block `rest`, which must be exactly one CBOR value; where
/// the flags declare none, `rest` must be empty.
pub open spec fn extensions_of(flags: u8, rest: Seq<u8>) -> Result<Option<Seq<u8>>, Error> {
    if flags & FLAG_EXTENSION_DATA != 0 {
        match cbor_item_len(rest) {
            Some(n) => if n == rest.len() {
                Ok(Some(rest))
            } else {
                Err(Error::Truncated)
            },
            None => Err(Error::Truncated),
        }
    } else if rest.len() == 0 {
        Ok(None)
    } else {
        Err(Error::InvalidData)
    }
}

/// The record that `d` holds, or the first error met reading it.
pub open spec fn authenticator_data_of(d: Seq<u8>) -> Result<AuthenticatorDataModel, Error> {
    if d.len() < HEADER_LENGTH {
        Err(Error::Truncated)
    } else {
        let flags = d[RP_ID_HASH_LENGTH as int];
        let attested: Result<(Option<AttestedCredentialModel>, int), Error> = if flags
            & FLAG_ATTESTED_CREDENTIAL_DATA != 0 {
            match attested_at(d) {
                Ok((a, end)) => Ok((Some(a), end)),
                Err(e) => Err(e),
            }
        } else {
            Ok((None, HEADER_LENGTH as int))
        };
        match attested {
            Err(e) => Err(e),
            Ok((a, end)) => match extensions_of(flags, d.subrange(end, d.len() as int)) {
                Err(e) => Err(e),
                Ok(x) => Ok(
                    AuthenticatorDataModel {
                        rp_id_hash: d.subrange(0, RP_ID_HASH_LENGTH as int),
                        flags,
                        sign_count: be_u32(d, RP_ID_HASH_LENGTH + 1),
                        attested_credential_data: a,
                        extensions: x,
                    },
                ),
            },
        }
    }
}

/// The big-endian number in the four bytes at `pos`.
fn read_u32_be(b: &[u8], pos: usize) -> (r: u32)
    requires
        pos + 4 <= b@.len(),
    ensures
        r as nat == be_u32(b@, pos as int),
{
    ((b[pos] as u32 * 256 + b[pos + 1] as u32) * 256 + b[pos + 2] as u32) * 256 + b[pos + 3] as u32
}

/// Reads the attested-credential block after the header: the block and where it ends.
fn read_attested(d: &[u8]) -> (r: Result<(AttestedCredentialData, usize), Error>)
    requires
        d@.len() >= HEADER_LENGTH,
    ensures
        match attested_at(d@) {
            Ok((a, end)) => (r matches Ok((x, e)) && x@ == a && e == end),
            Err(err) => r == Err::<(AttestedCredentialData, usize), Error>(err),
        },
        r matches Ok((x, e)) ==> e <= d@.len() && x.aaguid@.len() == AAGUID_LENGTH
            && x.credential_id@.len() <= MAX_CREDENTIAL_ID_LENGTH
            && x.credential_public_key@.len() <= COSE_KEY_LENGTH,
{
    let id_end: usize = HEADER_LENGTH + AAGUID_LENGTH + 2;
    if d.len() < id_end {
        return Err(Error::Truncated);
    }
    let id_len: usize = d[id_end - 2] as usize * 256 + d[id_end - 1] as usize;
    if id_len > MAX_CREDENTIAL_ID_LENGTH {
        return Err(Error::InvalidData);
    }
    if d.len() - id_end < id_len {
        return Err(Error::Truncated);
    }
    let start = id_end + id_len;
    let window_end = if d.len() - start <= COSE_KEY_LENGTH {
        d.len()
    } else {
        start + COSE_KEY_LENGTH
    };
    let window = slice_subrange(d, start, window_end);
    assert(window@ == probe_window(d@, start as int));
    match probe_cbor_item(window) {
        Some(n) => {
            let x = AttestedCredentialData {
                aaguid: slice_to_vec(slice_subrange(d, HEADER_LENGTH, id_end - 2)),
                credential_id: slice_to_vec(slice_subrange(d, id_end, start)),
                credential_public_key: slice_to_vec(slice_subrange(d, start, start + n)),
            };
            Ok((x, start + n))
        },
        None => Err(Error::InvalidData),
    }
}

/// Decodes an authenticator-data record. Every flag byte is accepted, and bits
/// other than those of the two optional blocks are kept as they are.
pub fn deserialize_authenticator_data(data: &[u8]) -> (r: Result<AuthenticatorData, Error>)
    ensures
        match authenticator_data_of(data@) {
            Ok(m) => (r matches Ok(a) && a@ == m),
            Err(e) => r == Err::<AuthenticatorData, Error>(e),
        },
        r matches Ok(a) ==> a.rp_id_hash@.len() == RP_ID_HASH_LENGTH,
        r matches Ok(a) ==> (a.attested_credential_data matches Some(c) ==> c.aaguid@.len()
            == AAGUID_LENGTH && c.credential_id@.len() <= MAX_CREDENTIAL_ID_LENGTH
            && c.credential_public_key@.len() <= COSE_KEY_LENGTH),
{
    if data.len() < HEADER_LENGTH {
        return Err(Error::Truncated);
    }
    let flags = data[RP_ID_HASH_LENGTH];
    let sign_count = read_u32_be(data, RP_ID_HASH_LENGTH + 1);
    let mut end: usize = HEADER_LENGTH;
    let attested_credential_data = if flags & FLAG_ATTESTED_CREDENTIAL_DATA != 0 {
        match read_attested(data) {
            Ok((a, e)) => {
                end = e;
                Some(a)
            },
            Err(e) => return Err(e),
        }
    } else {
        None
    };
    let rest = slice_subrange(data, end, data.len());
    let extensions = if flags & FLAG_EXTENSION_DATA != 0 {
        match probe_cbor_item(rest) {
            Some(n) => if n == rest.len() {
                Some(slice_to_vec(rest))
            } else {
                return Err(Error::Truncated);
            },
            None => return Err(Error::Truncated),
        }
    } else if rest.len() == 0 {
        None
    } else {
        return Err(Error::InvalidData);
    };
    let r = AuthenticatorData {
        rp_id_hash: slice_to_vec(slice_subrange(data, 0, RP_ID_HASH_LENGTH)),
        flags,
        sign_count,
        attested_credential_data,
        extensions,
    };
    assert(r@ == authenticator_data_of(data@)->Ok_0);
    Ok(r)
}

/// A record shorter than hash, flags and counter together is truncated.
pub proof fn lemma_short_input_truncated(d: Seq<u8>)
    requires
        d.len() < HEADER_LENGTH,
    ensures
        authenticator_data_of(d) == Err::<AuthenticatorDataModel, Error>(Error::Truncated),
{
}

/// Hash, flags and counter alone, with neither optional block declared, make a
/// record with neither block.
pub proof fn lemma_header_only_record(d: Seq<u8>)
    requires
        d.len() == HEADER_LENGTH,
        d[RP_ID_HASH_LENGTH as int] & FLAG_ATTESTED_CREDENTIAL_DATA == 0,
        d[RP_ID_HASH_LENGTH as int] & FLAG_EXTENSION_DATA == 0,
    ensures
        authenticator_data_of(d) matches Ok(m) && m.rp_id_hash == d.subrange(0, 32)
            && m.flags == d[32] && m.sign_count == be_u32(d, 33)
            && m.attested_credential_data is None && m.extensions is None,
{
    assert(d.subrange(HEADER_LENGTH as int, d.len() as int).len() == 0);
}

/// With neither optional block declared, a byte after the counter is rejected.
pub proof fn lemma_trailing_byte_rejected(d: Seq<u8>, extra: u8)
    requires
        d.len() == HEADER_LENGTH,
        d[RP_ID_HASH_LENGTH as int] & FLAG_ATTESTED_CREDENTIAL_DATA == 0,
        d[RP_ID_HASH_LENGTH as int] & FLAG_EXTENSION_DATA == 0,
    ensures
        authenticator_data_of(d.push(extra)) == Err::<AuthenticatorDataModel, Error>(
            Error::InvalidData,
        ),
{
    let e = d.push(extra);
    assert(e[RP_ID_HASH_LENGTH as int] == d[RP_ID_HASH_LENGTH as int]);
    assert(e.subrange(HEADER_LENGTH as int, e.len() as int).len() == 1);
}

/// A declared credential id longer than `MAX_CREDENTIAL_ID_LENGTH` is rejected
/// as invalid, whatever follows it.
pub proof fn lemma_oversize_credential_id(d: Seq<u8>)
    requires
        d.len() >= id_length_end(),
        d[RP_ID_HASH_LENGTH as int] & FLAG_ATTESTED_CREDENTIAL_DATA != 0,
        be_u16(d, id_length_end() - 2) > MAX_CREDENTIAL_ID_LENGTH,
    ensures
        authenticator_data_of(d) == Err::<AuthenticatorDataModel, Error>(Error::InvalidData),
{
}

/// The two bytes of a big-endian 16-bit length.
pub open spec fn be_u16_bytes(n: nat) -> Seq<u8> {
    seq![(n / 256) as u8, (n % 256) as u8]
}

/// Header, AAGUID, credential id length, credential id and one CBOR value of at
/// most `COSE_KEY_LENGTH` bytes, with only the credential block declared: the
/// id and the public key are read back exactly and nothing is left over.
pub proof fn lemma_attested_record(
    header: Seq<u8>,
    aaguid: Seq<u8>,
    credential_id: Seq<u8>,
    public_key: Seq<u8>,
)
    requires
        header.len() == HEADER_LENGTH,
        header[RP_ID_HASH_LENGTH as int] & FLAG_ATTESTED_CREDENTIAL_DATA != 0,
        header[RP_ID_HASH_LENGTH as int] & FLAG_EXTENSION_DATA == 0,
        aaguid.len() == AAGUID_LENGTH,
        credential_id.len() <= MAX_CREDENTIAL_ID_LENGTH,
        public_key.len() <= COSE_KEY_LENGTH,
        cbor_item_len(public_key) == Some(public_key.len() as usize),
    ensures
        ({
            let d = header + aaguid + be_u16_bytes(credential_id.len()) + credential_id
                + public_key;
            authenticator_data_of(d) matches Ok(m) && m.rp_id_hash == header.subrange(0, 32)
                && m.flags == header[32] && m.extensions is None && (m.attested_credential_data
                matches Some(a) && a.aaguid == aaguid && a.credential_id == credential_id
                && a.credential_public_key == public_key)
        }),
{
    let len_bytes = be_u16_bytes(credential_id.len());
    let d = header + aaguid + len_bytes + credential_id + public_key;
    let start = id_length_end() + credential_id.len();
    assert(d[RP_ID_HASH_LENGTH as int] == header[RP_ID_HASH_LENGTH as int]);
    assert(d[id_length_end() - 2] == len_bytes[0] && d[id_length_end() - 1] == len_bytes[1]);
    assert(be_u16(d, id_length_end() - 2) == credential_id.len());
    assert(probe_window(d, start) =~= public_key);
    assert(d.subrange(0, 32) =~= header.subrange(0, 32));
    assert(d.subrange(HEADER_LENGTH as int, id_length_end() - 2) =~= aaguid);
    assert(d.subrange(id_length_end(), start) =~= credential_id);
    assert(d.subrange(start, start + public_key.len()) =~= public_key);
    assert(d.subrange(d.len() as int, d.len() as int).len() == 0);
}

/// Header and one CBOR value, with only the extensions block declared: the
/// value is kept as the extensions.
pub proof fn lemma_extensions_record(header: Seq<u8>, extensions: Seq<u8>)
    requires
        header.len() == HEADER_LENGTH,
        header[RP_ID_HASH_LENGTH as int] & FLAG_ATTESTED_CREDENTIAL_DATA == 0,
        header[RP_ID_HASH_LENGTH as int] & FLAG_EXTENSION_DATA != 0,
        header.len() + extensions.len() <= usize::MAX,
        cbor_item_len(extensions) == Some(extensions.len() as usize),
    ensures
        authenticator_data_of(header + extensions) matches Ok(m)
            && m.attested_credential_data is None && m.extensions == Some(extensions),
{
    let d = header + extensions;
    assert(d[RP_ID_HASH_LENGTH as int] == header[RP_ID_HASH_LENGTH as int]);
    assert(d.subrange(HEADER_LENGTH as int, d.len() as int) =~= extensions);
}

} // verus!
