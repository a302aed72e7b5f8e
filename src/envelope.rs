//! The envelope of a key: a CBOR map of two entries, `"kind"` and `"material"`,
//! each a byte string, written in that order with the shortest heads. Decoding
//! takes the two entries in either order and nothing else.
use crate::cbor::{
    head, head_at, push_head, push_string, read_string, string_at, string_item, MAJOR_BYTES,
    MAJOR_TEXT,
};
use crate::error::Error;
use vstd::prelude::*;
use vstd::slice::{slice_subrange, slice_to_vec};

verus! {

/// Largest tag a key carries.
pub const KIND_CAPACITY: usize = 16;

/// Largest material capacity the envelope's two-byte length form can carry.
pub const MAX_MATERIAL_CAPACITY: usize = 65535;

/// First byte of a CBOR map of two entries.
pub const MAP_OF_TWO: u8 = 0xa2;

/// The field name "kind".
pub open spec fn kind_name() -> Seq<u8> {
    seq![0x6bu8, 0x69u8, 0x6eu8, 0x64u8]
}

/// The field name "material".
pub open spec fn material_name() -> Seq<u8> {
    seq![0x6du8, 0x61u8, 0x74u8, 0x65u8, 0x72u8, 0x69u8, 0x61u8, 0x6cu8]
}

/// The envelope that holds `kind` and `material`.
pub open spec fn envelope(kind: Seq<u8>, material: Seq<u8>) -> Seq<u8> {
    seq![MAP_OF_TWO] + string_item(MAJOR_TEXT, kind_name()) + string_item(MAJOR_BYTES, kind)
        + string_item(MAJOR_TEXT, material_name()) + string_item(MAJOR_BYTES, material)
}

/// The envelope that holds `kind` and `material`, with the material entry first.
pub open spec fn envelope_material_first(kind: Seq<u8>, material: Seq<u8>) -> Seq<u8> {
    seq![MAP_OF_TWO] + string_item(MAJOR_TEXT, material_name()) + string_item(MAJOR_BYTES, material)
        + string_item(MAJOR_TEXT, kind_name()) + string_item(MAJOR_BYTES, kind)
}

/// Whether a tag and a material fit a container of capacity `cap`.
pub open spec fn fits(kind: Seq<u8>, material: Seq<u8>, cap: nat) -> bool {
    kind.len() <= KIND_CAPACITY && material.len() <= cap
}

/// Reads one map entry at `pos`: whether its name is "kind" (else it is
/// "material"), and where its byte-string value starts and ends.
pub open spec fn entry_at(b: Seq<u8>, pos: int) -> Option<(bool, int, int)> {
    match string_at(b, pos, MAJOR_TEXT) {
        Some((s, e)) => {
            let name = b.subrange(s, e);
            if name == kind_name() || name == material_name() {
                match string_at(b, e, MAJOR_BYTES) {
                    Some((vs, ve)) => Some((name == kind_name(), vs, ve)),
                    None => None,
                }
            } else {
                None
            }
        },
        None => None,
    }
}

/// What decoding `b` for a container of capacity `cap` gives: the tag and the
/// material, or `DecodingFailed`.
pub open spec fn decode_envelope(b: Seq<u8>, cap: nat) -> Result<(Seq<u8>, Seq<u8>), Error> {
    if b.len() == 0 || b[0] != MAP_OF_TWO {
        Err(Error::DecodingFailed)
    } else {
        match entry_at(b, 1) {
            None => Err(Error::DecodingFailed),
            Some((k1, s1, e1)) => match entry_at(b, e1) {
                None => Err(Error::DecodingFailed),
                Some((k2, s2, e2)) => {
                    if k1 == k2 || e2 != b.len() {
                        Err(Error::DecodingFailed)
                    } else {
                        let first = b.subrange(s1, e1);
                        let second = b.subrange(s2, e2);
                        let kind = if k1 { first } else { second };
                        let material = if k1 { second } else { first };
                        if fits(kind, material, cap) {
                            Ok((kind, material))
                        } else {
                            Err(Error::DecodingFailed)
                        }
                    }
                },
            },
        }
    }
}

proof fn lemma_head_read(b: Seq<u8>, pos: int, major: u8, n: nat)
    requires
        major < 8,
        n < 65536,
        0 <= pos,
        pos + head(major, n).len() <= b.len(),
        b.subrange(pos, pos + head(major, n).len()) == head(major, n),
    ensures
        head_at(b, pos, major) == Some((n, pos + head(major, n).len())),
{
    let h = head(major, n);
    assert(b[pos] == h[0]) by {
        assert(b.subrange(pos, pos + h.len())[0] == b[pos]);
    }
    if n < 24 {
        assert((major * 32 + n) / 32 == major && (major * 32 + n) % 32 == n) by (nonlinear_arith)
            requires
                n < 24,
        ;
    } else if n < 256 {
        assert(b[pos + 1] == h[1]) by {
            assert(b.subrange(pos, pos + h.len())[1] == b[pos + 1]);
        }
        assert((major * 32 + 24) / 32 == major && (major * 32 + 24) % 32 == 24) by (nonlinear_arith);
    } else {
        assert(b[pos + 1] == h[1] && b[pos + 2] == h[2]) by {
            assert(b.subrange(pos, pos + h.len())[1] == b[pos + 1]);
            assert(b.subrange(pos, pos + h.len())[2] == b[pos + 2]);
        }
        assert((major * 32 + 25) / 32 == major && (major * 32 + 25) % 32 == 25) by (nonlinear_arith);
    }
}

/// A string item placed in a larger sequence is read back at its position.
proof fn lemma_string_read(pre: Seq<u8>, x: Seq<u8>, post: Seq<u8>, major: u8)
    requires
        major < 8,
        x.len() < 65536,
    ensures
        ({
            let b = pre + string_item(major, x) + post;
            let p: int = (pre.len() + head(major, x.len()).len()) as int;
            string_at(b, pre.len() as int, major) == Some((p, p + x.len()))
                && b.subrange(p, p + x.len()) == x
        }),
{
    let b = pre + string_item(major, x) + post;
    let h = head(major, x.len());
    let p: int = (pre.len() + h.len()) as int;
    assert(b.subrange(pre.len() as int, p) =~= h);
    lemma_head_read(b, pre.len() as int, major, x.len());
    assert(b.subrange(p, p + x.len()) =~= x);
}

/// Decoding an envelope gives back the tag and the material it was made from.
pub proof fn lemma_envelope_round_trip(kind: Seq<u8>, material: Seq<u8>, cap: nat)
    requires
        fits(kind, material, cap),
        cap <= MAX_MATERIAL_CAPACITY,
    ensures
        decode_envelope(envelope(kind, material), cap) == Ok::<(Seq<u8>, Seq<u8>), Error>(
            (kind, material),
        ),
{
    let m0 = seq![MAP_OF_TWO];
    let t1 = string_item(MAJOR_TEXT, kind_name());
    let b1 = string_item(MAJOR_BYTES, kind);
    let t2 = string_item(MAJOR_TEXT, material_name());
    let b2 = string_item(MAJOR_BYTES, material);
    let b = envelope(kind, material);
    assert(b =~= m0 + t1 + (b1 + t2 + b2));
    lemma_string_read(m0, kind_name(), b1 + t2 + b2, MAJOR_TEXT);
    assert(b =~= (m0 + t1) + b1 + (t2 + b2));
    lemma_string_read(m0 + t1, kind, t2 + b2, MAJOR_BYTES);
    assert(b =~= (m0 + t1 + b1) + t2 + b2);
    lemma_string_read(m0 + t1 + b1, material_name(), b2, MAJOR_TEXT);
    assert(b =~= (m0 + t1 + b1 + t2) + b2 + Seq::<u8>::empty());
    lemma_string_read(m0 + t1 + b1 + t2, material, Seq::<u8>::empty(), MAJOR_BYTES);
    assert(kind_name() != material_name()) by {
        assert(kind_name().len() != material_name().len());
    }
}

/// A head that `head_at` accepts is the shortest head of what it read.
proof fn lemma_head_written(b: Seq<u8>, pos: int, major: u8)
    requires
        major < 8,
        head_at(b, pos, major) is Some,
    ensures
        head_at(b, pos, major) matches Some((n, p)) && n < 65536 && p == pos + head(major, n).len()
            && b.subrange(pos, p) == head(major, n),
{
    let (n, p) = head_at(b, pos, major)->Some_0;
    let x = b[pos];
    assert(x == major * 32 + x % 32) by (nonlinear_arith)
        requires
            x / 32 == major,
    ;
    if x % 32 == 25 {
        let hi = b[pos + 1];
        let lo = b[pos + 2];
        assert(n == hi * 256 + lo);
        assert((hi * 256 + lo) / 256 == hi && (hi * 256 + lo) % 256 == lo && hi * 256 + lo
            >= 256 && hi * 256 + lo < 65536) by (nonlinear_arith)
            requires
                1 <= hi < 256,
                0 <= lo < 256,
        ;
    }
    assert(b.subrange(pos, p) =~= head(major, n));
}

/// A string that `string_at` accepts is the string item of its payload.
proof fn lemma_string_written(b: Seq<u8>, pos: int, major: u8)
    requires
        major < 8,
        string_at(b, pos, major) is Some,
    ensures
        string_at(b, pos, major) matches Some((s, e)) && pos < s <= e <= b.len()
            && e - s < 65536 && b.subrange(pos, e) == string_item(major, b.subrange(s, e)),
{
    lemma_head_written(b, pos, major);
    let (s, e) = string_at(b, pos, major)->Some_0;
    assert(b.subrange(pos, e) =~= b.subrange(pos, s) + b.subrange(s, e));
}

/// An entry that `entry_at` accepts is a name item followed by a byte-string item.
proof fn lemma_entry_written(b: Seq<u8>, pos: int)
    requires
        entry_at(b, pos) is Some,
    ensures
        entry_at(b, pos) matches Some((k, vs, ve)) && pos < vs <= ve <= b.len()
            && b.subrange(pos, ve) == string_item(
            MAJOR_TEXT,
            if k {
                kind_name()
            } else {
                material_name()
            },
        ) + string_item(MAJOR_BYTES, b.subrange(vs, ve)),
{
    lemma_string_written(b, pos, MAJOR_TEXT);
    let (s, e) = string_at(b, pos, MAJOR_TEXT)->Some_0;
    lemma_string_written(b, e, MAJOR_BYTES);
    let (vs, ve) = string_at(b, e, MAJOR_BYTES)->Some_0;
    assert(b.subrange(pos, ve) =~= b.subrange(pos, e) + b.subrange(e, ve));
}

/// Decoding accepts nothing but an envelope of what it gives, with its two
/// entries in one order or the other.
pub proof fn lemma_decoded_envelope_is_encoding(b: Seq<u8>, cap: nat)
    ensures
        decode_envelope(b, cap) matches Ok((kind, material)) ==> b == envelope(kind, material)
            || b == envelope_material_first(kind, material),
{
    if decode_envelope(b, cap) is Ok {
        lemma_entry_written(b, 1);
        let (k1, s1, e1) = entry_at(b, 1)->Some_0;
        lemma_entry_written(b, e1);
        let (k2, s2, e2) = entry_at(b, e1)->Some_0;
        assert(b =~= b.subrange(0, 1) + b.subrange(1, e1) + b.subrange(e1, e2));
        assert(b.subrange(0, 1) =~= seq![MAP_OF_TWO]);
        let (kind, material) = decode_envelope(b, cap)->Ok_0;
        if k1 {
            assert(b =~= envelope(kind, material));
        } else {
            assert(b =~= envelope_material_first(kind, material));
        }
    }
}

/// Encodes `kind` and `material` as an envelope; a tag or material over the
/// capacity `cap` is refused.
pub fn encode_envelope(kind: &[u8], material: &[u8], cap: usize) -> (r: Result<Vec<u8>, Error>)
    requires
        cap <= MAX_MATERIAL_CAPACITY,
    ensures
        fits(kind@, material@, cap as nat) ==> (r matches Ok(v) && v@ == envelope(kind@, material@)),
        !fits(kind@, material@, cap as nat) ==> r == Err::<Vec<u8>, Error>(Error::EncodingFailed),
{
    if kind.len() > KIND_CAPACITY || material.len() > cap {
        return Err(Error::EncodingFailed);
    }
    let mut out: Vec<u8> = Vec::new();
    out.push(MAP_OF_TWO);
    let kind_field: [u8; 4] = [0x6b, 0x69, 0x6e, 0x64];
    let material_field: [u8; 8] = [0x6d, 0x61, 0x74, 0x65, 0x72, 0x69, 0x61, 0x6c];
    assert(kind_field@ =~= kind_name());
    assert(material_field@ =~= material_name());
    push_string(&mut out, MAJOR_TEXT, kind_field.as_slice());
    push_string(&mut out, MAJOR_BYTES, kind);
    push_string(&mut out, MAJOR_TEXT, material_field.as_slice());
    push_string(&mut out, MAJOR_BYTES, material);
    assert(out@ =~= envelope(kind@, material@));
    Ok(out)
}

/// Whether the bytes of `b` from `s` to `e` are `name`.
fn span_is(b: &[u8], s: usize, e: usize, name: &[u8]) -> (r: bool)
    requires
        s <= e <= b@.len(),
    ensures
        r == (b@.subrange(s as int, e as int) == name@),
{
    if e - s != name.len() {
        return false;
    }
    let mut i: usize = 0;
    while i < name.len()
        invariant
            e - s == name@.len(),
            s <= e <= b@.len(),
            0 <= i <= name@.len(),
            forall|j: int| 0 <= j < i ==> b@[s + j] == name@[j],
        decreases name@.len() - i,
    {
        if b[s + i] != name[i] {
            assert(b@.subrange(s as int, e as int)[i as int] != name@[i as int]);
            return false;
        }
        i = i + 1;
    }
    assert(b@.subrange(s as int, e as int) =~= name@);
    true
}

/// Executable form of `entry_at`.
fn read_entry(b: &[u8], pos: usize) -> (r: Option<(bool, usize, usize)>)
    ensures
        r is Some <==> entry_at(b@, pos as int) is Some,
        r matches Some((k, s, e)) ==> entry_at(b@, pos as int) == Some((k, s as int, e as int))
            && pos < s <= e <= b@.len(),
{
    let kind_field: [u8; 4] = [0x6b, 0x69, 0x6e, 0x64];
    let material_field: [u8; 8] = [0x6d, 0x61, 0x74, 0x65, 0x72, 0x69, 0x61, 0x6c];
    assert(kind_field@ =~= kind_name());
    assert(material_field@ =~= material_name());
    match read_string(b, pos, MAJOR_TEXT) {
        Some((s, e)) => {
            let is_kind = span_is(b, s, e, kind_field.as_slice());
            let is_material = span_is(b, s, e, material_field.as_slice());
            if is_kind || is_material {
                match read_string(b, e, MAJOR_BYTES) {
                    Some((vs, ve)) => Some((is_kind, vs, ve)),
                    None => None,
                }
            } else {
                None
            }
        },
        None => None,
    }
}

/// Decodes an envelope for a container of capacity `cap` into its tag and material.
pub fn decode_envelope_bytes(b: &[u8], cap: usize) -> (r: Result<(Vec<u8>, Vec<u8>), Error>)
    ensures
        match decode_envelope(b@, cap as nat) {
            Ok((kind, material)) => (r matches Ok((k, m)) && k@ == kind && m@ == material),
            Err(e) => r == Err::<(Vec<u8>, Vec<u8>), Error>(e),
        },
{
    if b.len() == 0 || b[0] != MAP_OF_TWO {
        return Err(Error::DecodingFailed);
    }
    let (k1, s1, e1) = match read_entry(b, 1) {
        Some(entry) => entry,
        None => return Err(Error::DecodingFailed),
    };
    let (k2, s2, e2) = match read_entry(b, e1) {
        Some(entry) => entry,
        None => return Err(Error::DecodingFailed),
    };
    if k1 == k2 || e2 != b.len() {
        return Err(Error::DecodingFailed);
    }
    let first = slice_subrange(b, s1, e1);
    let second = slice_subrange(b, s2, e2);
    let (kind, material) = if k1 {
        (first, second)
    } else {
        (second, first)
    };
    if kind.len() > KIND_CAPACITY || material.len() > cap {
        return Err(Error::DecodingFailed);
    }
    Ok((slice_to_vec(kind), slice_to_vec(material)))
}

} // verus!
