//! The few pieces of CBOR (RFC 8949) that the envelope and the decoder need:
//! heads of byte and text strings in their shortest form, and a probe that
//! measures one encoded data item.
use serde::Deserialize;
use vstd::prelude::*;

verus! {

/// Major type of a byte string.
pub const MAJOR_BYTES: u8 = 2;

/// Major type of a text string.
pub const MAJOR_TEXT: u8 = 3;

/// The shortest head of an item of major type `major` whose argument is `n`
/// (arguments below 2^16).
pub open spec fn head(major: u8, n: nat) -> Seq<u8> {
    if n < 24 {
        seq![(major * 32 + n) as u8]
    } else if n < 256 {
        seq![(major * 32 + 24) as u8, n as u8]
    } else {
        seq![(major * 32 + 25) as u8, (n / 256) as u8, (n % 256) as u8]
    }
}

/// A string of major type `major` holding `x`.
pub open spec fn string_item(major: u8, x: Seq<u8>) -> Seq<u8> {
    head(major, x.len()) + x
}

/// Reads a head of major type `major` at `pos`, accepting only the shortest
/// form of arguments below 2^16: the argument and the position after the head.
pub open spec fn head_at(b: Seq<u8>, pos: int, major: u8) -> Option<(nat, int)> {
    if pos < 0 || pos >= b.len() || b[pos] / 32 != major {
        None
    } else {
        let ai = b[pos] % 32;
        if ai < 24 {
            Some((ai as nat, pos + 1))
        } else if ai == 24 {
            if pos + 2 <= b.len() && b[pos + 1] >= 24 {
                Some((b[pos + 1] as nat, pos + 2))
            } else {
                None
            }
        } else if ai == 25 {
            if pos + 3 <= b.len() && b[pos + 1] >= 1 {
                Some(((b[pos + 1] * 256 + b[pos + 2]) as nat, pos + 3))
            } else {
                None
            }
        } else {
            None
        }
    }
}

/// Reads a string of major type `major` at `pos`: where its payload starts and ends.
pub open spec fn string_at(b: Seq<u8>, pos: int, major: u8) -> Option<(int, int)> {
    match head_at(b, pos, major) {
        Some((n, p)) => if p + n <= b.len() {
            Some((p, p + n))
        } else {
            None
        },
        None => None,
    }
}

/// Appends the shortest head for `major` and `n`.
pub fn push_head(out: &mut Vec<u8>, major: u8, n: usize)
    requires
        major < 8,
        n < 65536,
    ensures
        final(out)@ == old(out)@ + head(major, n as nat),
{
    if n < 24 {
        out.push(major * 32 + n as u8);
    } else if n < 256 {
        out.push(major * 32 + 24);
        out.push(n as u8);
    } else {
        out.push(major * 32 + 25);
        out.push((n / 256) as u8);
        out.push((n % 256) as u8);
    }
    assert(final(out)@ =~= old(out)@ + head(major, n as nat));
}

/// Appends a string of major type `major` holding `x`.
pub fn push_string(out: &mut Vec<u8>, major: u8, x: &[u8])
    requires
        major < 8,
        x@.len() < 65536,
    ensures
        final(out)@ == old(out)@ + string_item(major, x@),
{
    push_head(out, major, x.len());
    let ghost mid = out@;
    let mut i: usize = 0;
    while i < x.len()
        invariant
            0 <= i <= x@.len(),
            out@ == mid + x@.subrange(0, i as int),
        decreases x@.len() - i,
    {
        out.push(x[i]);
        i = i + 1;
        assert(out@ =~= mid + x@.subrange(0, i as int));
    }
    assert(x@.subrange(0, x@.len() as int) =~= x@);
    assert(out@ =~= old(out)@ + string_item(major, x@));
}

/// Executable form of `head_at`.
pub fn read_head(b: &[u8], pos: usize, major: u8) -> (r: Option<(usize, usize)>)
    ensures
        r is Some <==> head_at(b@, pos as int, major) is Some,
        r matches Some((n, p)) ==> head_at(b@, pos as int, major) == Some((n as nat, p as int)),
{
    if pos >= b.len() || b[pos] / 32 != major {
        return None;
    }
    let ai = b[pos] % 32;
    if ai < 24 {
        Some((ai as usize, pos + 1))
    } else if ai == 24 {
        if b.len() - pos >= 2 && b[pos + 1] >= 24 {
            Some((b[pos + 1] as usize, pos + 2))
        } else {
            None
        }
    } else if ai == 25 {
        if b.len() - pos >= 3 && b[pos + 1] >= 1 {
            Some((b[pos + 1] as usize * 256 + b[pos + 2] as usize, pos + 3))
        } else {
            None
        }
    } else {
        None
    }
}

/// Executable form of `string_at`.
pub fn read_string(b: &[u8], pos: usize, major: u8) -> (r: Option<(usize, usize)>)
    ensures
        r is Some <==> string_at(b@, pos as int, major) is Some,
        r matches Some((s, e)) ==> string_at(b@, pos as int, major) == Some((s as int, e as int))
            && pos < s <= e <= b@.len(),
{
    match read_head(b, pos, major) {
        Some((n, p)) => if n <= b.len() - p {
            Some((p, p + n))
        } else {
            None
        },
        None => None,
    }
}

/// What serde_cbor's decoder makes of the bytes at the start of `data`: the
/// length of the one CBOR data item found there, or `None` where none decodes.
pub uninterp spec fn cbor_item_len(data: Seq<u8>) -> Option<usize>;

/// Relies on serde_cbor's `Deserializer::from_slice`, `Value::deserialize` and
/// `Deserializer::byte_offset`: one CBOR data item is decoded from the start of
/// `data` (nesting is capped at 128 levels), and the offset reached is its length.
/// A decoded item takes at least its first byte, and the reader never passes the
/// end of the slice.
#[verifier::external_body]
pub(crate) fn probe_cbor_item(data: &[u8]) -> (r: Option<usize>)
    ensures
        r == cbor_item_len(data@),
        r matches Some(n) ==> 0 < n <= data@.len(),
{
    let mut de = serde_cbor::Deserializer::from_slice(data);
    match serde_cbor::Value::deserialize(&mut de) {
        Ok(_) => Some(de.byte_offset()),
        Err(_) => None,
    }
}

} // verus!
