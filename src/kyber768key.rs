//! Key material of a Kyber768 secret key.
use crate::envelope::{
    decode_envelope, decode_envelope_bytes, encode_envelope, envelope, fits,
    lemma_envelope_round_trip, KIND_CAPACITY,
};
use crate::error::Error;
use vstd::prelude::*;
use vstd::slice::slice_to_vec;

verus! {

/// Bytes of a Kyber768 secret key, as pqcrypto's PQClean build has it.
pub const SECRET_KEY_BYTES: usize = 2400;

/// A tag and the secret-key bytes it identifies.
#[derive(Clone, Debug, PartialEq, Eq)]
pub struct Key {
    pub kind: Vec<u8>,
    pub material: Vec<u8>,
}

impl Key {
    /// The tag and the material fit their capacities.
    pub open spec fn wf(&self) -> bool {
        fits(self.kind@, self.material@, SECRET_KEY_BYTES as nat)
    }

    /// Holds `kind` and `material`; either one over its capacity is refused.
    pub fn new(kind: &[u8], material: &[u8]) -> (r: Result<Key, Error>)
        ensures
            r is Ok <==> fits(kind@, material@, SECRET_KEY_BYTES as nat),
            r matches Ok(k) ==> k.kind@ == kind@ && k.material@ == material@,
            r is Err ==> r == Err::<Key, Error>(Error::CapacityExceeded),
    {
        if kind.len() > KIND_CAPACITY || material.len() > SECRET_KEY_BYTES {
            return Err(Error::CapacityExceeded);
        }
        Ok(Key { kind: slice_to_vec(kind), material: slice_to_vec(material) })
    }

    /// The envelope of this key.
    pub fn serialize(&self) -> (r: Result<Vec<u8>, Error>)
        ensures
            self.wf() ==> (r matches Ok(v) && v@ == envelope(self.kind@, self.material@)),
            !self.wf() ==> r == Err::<Vec<u8>, Error>(Error::EncodingFailed),
    {
        encode_envelope(self.kind.as_slice(), self.material.as_slice(), SECRET_KEY_BYTES)
    }

    /// The key that an envelope holds.
    pub fn deserialize(serialized_data: Vec<u8>) -> (r: Result<Self, Error>)
        ensures
            match decode_envelope(serialized_data@, SECRET_KEY_BYTES as nat) {
                Ok((kind, material)) => (r matches Ok(k) && k.kind@ == kind && k.material@
                    == material),
                Err(e) => r == Err::<Key, Error>(e),
            },
            r matches Ok(k) ==> k.wf(),
    {
        match decode_envelope_bytes(serialized_data.as_slice(), SECRET_KEY_BYTES) {
            Ok((kind, material)) => Ok(Key { kind, material }),
            Err(e) => Err(e),
        }
    }

    /// The secret-key bytes, exactly as stored.
    pub fn get_material(&self) -> (r: &[u8])
        ensures
            r@ == self.material@,
    {
        self.material.as_slice()
    }

    /// The tag, exactly as stored.
    pub fn kind(&self) -> (r: &[u8])
        ensures
            r@ == self.kind@,
    {
        self.kind.as_slice()
    }
}

/// Deserializing what `serialize` made of a well-formed key gives that key back.
pub proof fn lemma_round_trip(key: Key)
    requires
        key.wf(),
    ensures
        decode_envelope(envelope(key.kind@, key.material@), SECRET_KEY_BYTES as nat) == Ok::<
            (Seq<u8>, Seq<u8>),
            Error,
        >((key.kind@, key.material@)),
{
    lemma_envelope_round_trip(key.kind@, key.material@, SECRET_KEY_BYTES as nat);
}

} // verus!
