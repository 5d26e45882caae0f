//! Byte-level wire primitives.
//!
//! Every message travels as one self-contained datagram or stream payload.
//! Fields are laid out positionally: integers as four little-endian bytes,
//! byte fields and text fields with a four-byte length prefix (text encoded
//! as UTF-8), booleans and variant tags as one byte.  For each primitive
//! there is a specification-level serializer over mathematical values, a
//! specification-level parser, a proof that the parser inverts the
//! serializer, and executable functions tied to those specifications.

use vstd::prelude::*;
use vstd::bytes::{spec_u32_from_le_bytes, spec_u32_to_le_bytes, u32_from_le_bytes, u32_to_le_bytes};
use vstd::bytes::lemma_auto_spec_u32_to_from_le_bytes;
use vstd::utf8::{decode_utf8, encode_utf8, valid_utf8};
use vstd::utf8::{encode_utf8_decode_utf8, encode_utf8_valid_utf8};
use vstd::slice::{slice_subrange, slice_to_vec};
use crate::errors::CoreError;

verus! {

/// True when a field of `n` items can carry a four-byte length prefix.
pub open spec fn fits_u32(n: nat) -> bool {
    n <= u32::MAX
}

/// True when the UTF-8 encoding of `s` can carry a four-byte length prefix.
pub open spec fn string_fits(s: Seq<char>) -> bool {
    fits_u32(encode_utf8(s).len())
}

// ---------------------------------------------------------------------------
// Specification-level serializers
// ---------------------------------------------------------------------------

/// A `u32` on the wire: four little-endian bytes.
pub open spec fn spec_ser_u32(x: u32) -> Seq<u8> {
    spec_u32_to_le_bytes(x)
}

/// A single raw byte on the wire.
pub open spec fn spec_ser_byte(b: u8) -> Seq<u8> {
    seq![b]
}

/// A boolean on the wire: one byte, `1` for true and `0` for false.
pub open spec fn spec_ser_bool(b: bool) -> Seq<u8> {
    seq![if b { 1u8 } else { 0u8 }]
}

/// A byte field on the wire: a four-byte length prefix, then the bytes.
pub open spec fn spec_ser_chunk(b: Seq<u8>) -> Seq<u8>
    recommends
        fits_u32(b.len()),
{
    spec_u32_to_le_bytes(b.len() as u32) + b
}

/// A text field on the wire: its UTF-8 encoding as a length-prefixed chunk.
pub open spec fn spec_ser_string(s: Seq<char>) -> Seq<u8>
    recommends
        string_fits(s),
{
    spec_ser_chunk(encode_utf8(s))
}

// ---------------------------------------------------------------------------
// Specification-level parsers
// ---------------------------------------------------------------------------
//
// A parser takes the whole buffer and a position, and returns the parsed
// value together with the position just past it, or nothing on truncated
// or malformed input.

/// Parse four little-endian bytes as a `u32`.
pub open spec fn spec_parse_u32(buf: Seq<u8>, pos: int) -> Option<(u32, int)> {
    if 0 <= pos && pos + 4 <= buf.len() {
        Some((spec_u32_from_le_bytes(buf.subrange(pos, pos + 4)), pos + 4))
    } else {
        None
    }
}

/// Parse one raw byte.
pub open spec fn spec_parse_byte(buf: Seq<u8>, pos: int) -> Option<(u8, int)> {
    if 0 <= pos && pos + 1 <= buf.len() {
        Some((buf[pos], pos + 1))
    } else {
        None
    }
}

/// Parse one byte as a boolean; any byte other than `0` or `1` is malformed.
pub open spec fn spec_parse_bool(buf: Seq<u8>, pos: int) -> Option<(bool, int)> {
    match spec_parse_byte(buf, pos) {
        Some((b, p)) => if b == 1u8 {
            Some((true, p))
        } else if b == 0u8 {
            Some((false, p))
        } else {
            None
        },
        None => None,
    }
}

/// Parse a length-prefixed byte field.
pub open spec fn spec_parse_chunk(buf: Seq<u8>, pos: int) -> Option<(Seq<u8>, int)> {
    match spec_parse_u32(buf, pos) {
        Some((n, p)) => if p + n <= buf.len() {
            Some((buf.subrange(p, p + n), p + n))
        } else {
            None
        },
        None => None,
    }
}

/// Parse a length-prefixed text field; the bytes must be valid UTF-8.
pub open spec fn spec_parse_string(buf: Seq<u8>, pos: int) -> Option<(Seq<char>, int)> {
    match spec_parse_chunk(buf, pos) {
        Some((b, p)) => if valid_utf8(b) {
            Some((decode_utf8(b), p))
        } else {
            None
        },
        None => None,
    }
}

// ---------------------------------------------------------------------------
// Round-trip lemmas
// ---------------------------------------------------------------------------
//
// Each lemma says: wherever a buffer holds the serialized form of a value,
// the parser recovers exactly that value and stops just past it.

pub proof fn lemma_parse_u32_at(buf: Seq<u8>, pos: int, x: u32)
    requires
        0 <= pos,
        pos + 4 <= buf.len(),
        buf.subrange(pos, pos + 4) == spec_ser_u32(x),
    ensures
        spec_parse_u32(buf, pos) == Some((x, pos + 4)),
{
    lemma_auto_spec_u32_to_from_le_bytes();
    assert(spec_u32_to_le_bytes(x).len() == 4);
    assert(spec_u32_from_le_bytes(buf.subrange(pos, pos + 4)) == x);
}

pub proof fn lemma_parse_byte_at(buf: Seq<u8>, pos: int, b: u8)
    requires
        0 <= pos,
        pos + 1 <= buf.len(),
        buf.subrange(pos, pos + 1) == spec_ser_byte(b),
    ensures
        spec_parse_byte(buf, pos) == Some((b, pos + 1)),
{
    assert(buf.subrange(pos, pos + 1)[0] == buf[pos]);
}

pub proof fn lemma_parse_bool_at(buf: Seq<u8>, pos: int, b: bool)
    requires
        0 <= pos,
        pos + 1 <= buf.len(),
        buf.subrange(pos, pos + 1) == spec_ser_bool(b),
    ensures
        spec_parse_bool(buf, pos) == Some((b, pos + 1)),
{
    lemma_parse_byte_at(buf, pos, if b { 1u8 } else { 0u8 });
}

pub proof fn lemma_parse_chunk_at(buf: Seq<u8>, pos: int, b: Seq<u8>)
    requires
        fits_u32(b.len()),
        0 <= pos,
        pos + 4 + b.len() <= buf.len(),
        buf.subrange(pos, pos + 4 + b.len()) == spec_ser_chunk(b),
    ensures
        spec_parse_chunk(buf, pos) == Some((b, pos + 4 + b.len())),
{
    lemma_auto_spec_u32_to_from_le_bytes();
    let whole = buf.subrange(pos, pos + 4 + b.len());
    assert(spec_u32_to_le_bytes(b.len() as u32).len() == 4);
    assert(buf.subrange(pos, pos + 4) =~= whole.subrange(0, 4));
    assert(whole.subrange(0, 4) =~= spec_u32_to_le_bytes(b.len() as u32));
    lemma_parse_u32_at(buf, pos, b.len() as u32);
    assert forall|i: int| 0 <= i < b.len() implies buf.subrange(pos + 4, pos + 4 + b.len())[i]
        == b[i] by {
        assert(whole[4 + i] == spec_ser_chunk(b)[4 + i]);
        assert(spec_ser_chunk(b)[4 + i] == b[i]);
        assert(buf.subrange(pos + 4, pos + 4 + b.len())[i] == buf[pos + 4 + i]);
        assert(whole[4 + i] == buf[pos + 4 + i]);
    }
    assert(buf.subrange(pos + 4, pos + 4 + b.len()) =~= b);
}

pub proof fn lemma_parse_string_at(buf: Seq<u8>, pos: int, s: Seq<char>)
    requires
        string_fits(s),
        0 <= pos,
        pos + 4 + encode_utf8(s).len() <= buf.len(),
        buf.subrange(pos, pos + 4 + encode_utf8(s).len()) == spec_ser_string(s),
    ensures
        spec_parse_string(buf, pos) == Some((s, pos + 4 + encode_utf8(s).len())),
{
    lemma_parse_chunk_at(buf, pos, encode_utf8(s));
    encode_utf8_valid_utf8(s);
    encode_utf8_decode_utf8(s);
}

// ---------------------------------------------------------------------------
// Executable writers
// ---------------------------------------------------------------------------

pub fn write_u32(out: &mut Vec<u8>, x: u32)
    ensures
        final(out)@ == old(out)@ + spec_ser_u32(x),
{
    let mut b = u32_to_le_bytes(x);
    out.append(&mut b);
}

pub fn write_byte(out: &mut Vec<u8>, b: u8)
    ensures
        final(out)@ == old(out)@ + spec_ser_byte(b),
{
    out.push(b);
    assert(final(out)@ =~= old(out)@ + spec_ser_byte(b));
}

pub fn write_bool(out: &mut Vec<u8>, b: bool)
    ensures
        final(out)@ == old(out)@ + spec_ser_bool(b),
{
    write_byte(out, if b { 1u8 } else { 0u8 });
}

pub fn write_chunk(out: &mut Vec<u8>, b: &[u8]) -> (r: Result<(), CoreError>)
    ensures
        match r {
            Ok(u) => fits_u32(b@.len()) && final(out)@ == old(out)@ + spec_ser_chunk(b@),
            Err(e) => e == CoreError::EncodingError && !fits_u32(b@.len()) && *final(out) == *old(out),
        },
{
    if b.len() as u64 > u32::MAX as u64 {
        return Err(CoreError::EncodingError);
    }
    write_u32(out, b.len() as u32);
    let ghost mid = out@;
    out.extend_from_slice(b);
    proof {
        assert forall|i: int| 0 <= i < b@.len() implies final(out)@[mid.len() + i] == b@[i] by {
            assert(vstd::pervasive::cloned::<u8>(b@[i], out@[mid.len() + i]));
        }
        assert(out@ =~= old(out)@ + spec_ser_chunk(b@));
    }
    Ok(())
}

pub fn write_string(out: &mut Vec<u8>, s: &str) -> (r: Result<(), CoreError>)
    ensures
        match r {
            Ok(u) => string_fits(s@) && final(out)@ == old(out)@ + spec_ser_string(s@),
            Err(e) => e == CoreError::EncodingError && !string_fits(s@) && *final(out) == *old(out),
        },
{
    write_chunk(out, s.as_bytes())
}

// ---------------------------------------------------------------------------
// Executable readers
// ---------------------------------------------------------------------------

pub fn read_u32(buf: &[u8], pos: usize) -> (r: Result<(u32, usize), CoreError>)
    ensures
        match r {
            Ok((x, p)) => spec_parse_u32(buf@, pos as int) == Some((x, p as int)),
            Err(e) => e == CoreError::DecodingError && spec_parse_u32(buf@, pos as int)
                is None,
        },
{
    if buf.len() >= 4 && pos <= buf.len() - 4 {
        let sl = slice_subrange(buf, pos, pos + 4);
        let x = u32_from_le_bytes(sl);
        Ok((x, pos + 4))
    } else {
        Err(CoreError::DecodingError)
    }
}

pub fn read_byte(buf: &[u8], pos: usize) -> (r: Result<(u8, usize), CoreError>)
    ensures
        match r {
            Ok((b, p)) => spec_parse_byte(buf@, pos as int) == Some((b, p as int)),
            Err(e) => e == CoreError::DecodingError && spec_parse_byte(buf@, pos as int)
                is None,
        },
{
    if pos < buf.len() {
        let b = *vstd::slice::slice_index_get(buf, pos);
        Ok((b, pos + 1))
    } else {
        Err(CoreError::DecodingError)
    }
}

pub fn read_bool(buf: &[u8], pos: usize) -> (r: Result<(bool, usize), CoreError>)
    ensures
        match r {
            Ok((b, p)) => spec_parse_bool(buf@, pos as int) == Some((b, p as int)),
            Err(e) => e == CoreError::DecodingError && spec_parse_bool(buf@, pos as int)
                is None,
        },
{
    let (b, p) = read_byte(buf, pos)?;
    if b == 1 {
        Ok((true, p))
    } else if b == 0 {
        Ok((false, p))
    } else {
        Err(CoreError::DecodingError)
    }
}

pub fn read_chunk(buf: &[u8], pos: usize) -> (r: Result<(Vec<u8>, usize), CoreError>)
    ensures
        match r {
            Ok((b, p)) => spec_parse_chunk(buf@, pos as int) == Some((b@, p as int)),
            Err(e) => e == CoreError::DecodingError && spec_parse_chunk(buf@, pos as int)
                is None,
        },
{
    let (n, p) = read_u32(buf, pos)?;
    if (n as usize) <= buf.len() - p {
        let sl = slice_subrange(buf, p, p + n as usize);
        let v = slice_to_vec(sl);
        Ok((v, p + n as usize))
    } else {
        Err(CoreError::DecodingError)
    }
}

/// Relies on `String::from_utf8`: it returns the string holding exactly the
/// given bytes when they are valid UTF-8, and an error otherwise.
#[verifier::external_body]
fn string_from_utf8(bytes: Vec<u8>) -> (r: Option<String>)
    ensures
        r is Some <==> valid_utf8(bytes@),
        r matches Some(s) ==> s@ == decode_utf8(bytes@),
{
    String::from_utf8(bytes).ok()
}

// ---------------------------------------------------------------------------
// Lists of text fields
// ---------------------------------------------------------------------------
//
// A list travels as a four-byte element count followed by the elements.

/// True when a list of text fields can be carried on the wire.
pub open spec fn strings_fit(ss: Seq<Seq<char>>) -> bool {
    fits_u32(ss.len()) && (forall|i: int| 0 <= i < ss.len() ==> string_fits(#[trigger] ss[i]))
}

/// The concatenation of the serialized elements, in order.
pub open spec fn spec_ser_strings(ss: Seq<Seq<char>>) -> Seq<u8>
    decreases ss.len(),
{
    if ss.len() == 0 {
        Seq::empty()
    } else {
        spec_ser_string(ss[0]) + spec_ser_strings(ss.drop_first())
    }
}

/// A list of text fields on the wire: element count, then the elements.
pub open spec fn spec_ser_string_list(ss: Seq<Seq<char>>) -> Seq<u8>
    recommends
        strings_fit(ss),
{
    spec_ser_u32(ss.len() as u32) + spec_ser_strings(ss)
}

/// Parse exactly `count` text fields starting at `pos`.
pub open spec fn spec_parse_strings(buf: Seq<u8>, pos: int, count: nat) -> Option<
    (Seq<Seq<char>>, int),
>
    decreases count,
{
    if count == 0 {
        Some((Seq::empty(), pos))
    } else {
        match spec_parse_string(buf, pos) {
            Some((s, p)) => match spec_parse_strings(buf, p, (count - 1) as nat) {
                Some((ss, end)) => Some((seq![s] + ss, end)),
                None => None,
            },
            None => None,
        }
    }
}

/// Parse a counted list of text fields.
pub open spec fn spec_parse_string_list(buf: Seq<u8>, pos: int) -> Option<(Seq<Seq<char>>, int)> {
    match spec_parse_u32(buf, pos) {
        Some((n, p)) => spec_parse_strings(buf, p, n as nat),
        None => None,
    }
}

/// Appending one more element serializes as the old list plus that element.
pub proof fn lemma_ser_strings_take_succ(ss: Seq<Seq<char>>, i: int)
    requires
        0 <= i < ss.len(),
    ensures
        spec_ser_strings(ss.take(i + 1)) == spec_ser_strings(ss.take(i)) + spec_ser_string(ss[i]),
    decreases i,
{
    if i == 0 {
        assert(ss.take(0) =~= Seq::<Seq<char>>::empty());
        assert(spec_ser_strings(Seq::<Seq<char>>::empty()) == Seq::<u8>::empty());
        assert(ss.take(1) =~= seq![ss[0]]);
        assert(seq![ss[0]].drop_first() =~= Seq::<Seq<char>>::empty());
        assert(seq![ss[0]][0] == ss[0]);
        assert(spec_ser_strings(seq![ss[0]]) == spec_ser_string(ss[0]) + Seq::<u8>::empty());
        assert(spec_ser_string(ss[0]) + Seq::<u8>::empty() =~= spec_ser_string(ss[0]));
        assert(Seq::<u8>::empty() + spec_ser_string(ss[0]) =~= spec_ser_string(ss[0]));
    } else {
        lemma_ser_strings_take_succ(ss.drop_first(), i - 1);
        assert(ss.take(i + 1).drop_first() =~= ss.drop_first().take(i));
        assert(ss.take(i).drop_first() =~= ss.drop_first().take(i - 1));
        assert(ss.take(i + 1)[0] == ss[0]);
        assert(ss.take(i)[0] == ss[0]);
        assert(ss.drop_first()[i - 1] == ss[i]);
        assert(spec_ser_strings(ss.take(i + 1)) == spec_ser_string(ss[0]) + spec_ser_strings(
            ss.drop_first().take(i),
        ));
        assert(spec_ser_string(ss[0]) + (spec_ser_strings(ss.drop_first().take(i - 1))
            + spec_ser_string(ss[i])) =~= (spec_ser_string(ss[0]) + spec_ser_strings(
            ss.drop_first().take(i - 1),
        )) + spec_ser_string(ss[i]));
        assert(spec_ser_strings(ss.take(i)) == spec_ser_string(ss[0]) + spec_ser_strings(
            ss.drop_first().take(i - 1),
        ));
    }
}

/// Wherever a buffer holds `count` serialized text fields, the counted
/// parser recovers exactly those fields.
pub proof fn lemma_parse_strings_at(buf: Seq<u8>, pos: int, ss: Seq<Seq<char>>)
    requires
        strings_fit(ss),
        0 <= pos,
        pos + spec_ser_strings(ss).len() <= buf.len(),
        buf.subrange(pos, pos + spec_ser_strings(ss).len()) == spec_ser_strings(ss),
    ensures
        spec_parse_strings(buf, pos, ss.len()) == Some(
            (ss, pos + spec_ser_strings(ss).len()),
        ),
    decreases ss.len(),
{
    if ss.len() == 0 {
        assert(spec_parse_strings(buf, pos, 0) == Some((Seq::<Seq<char>>::empty(), pos)));
    } else {
        lemma_auto_spec_u32_to_from_le_bytes();
        let head = spec_ser_string(ss[0]);
        let tail = spec_ser_strings(ss.drop_first());
        assert(spec_ser_strings(ss) == head + tail);
        assert(spec_ser_u32(encode_utf8(ss[0]).len() as u32).len() == 4);
        assert(head.len() == 4 + encode_utf8(ss[0]).len());
        assert(buf.subrange(pos, pos + head.len()) =~= head) by {
            assert forall|i: int| 0 <= i < head.len() implies buf.subrange(
                pos,
                pos + head.len(),
            )[i] == head[i] by {
                assert(buf.subrange(pos, pos + spec_ser_strings(ss).len())[i] == (head + tail)[i]);
            }
        }
        lemma_parse_string_at(buf, pos, ss[0]);
        let p = pos + head.len();
        assert(buf.subrange(p, p + tail.len()) =~= tail) by {
            assert forall|i: int| 0 <= i < tail.len() implies buf.subrange(p, p + tail.len())[i]
                == tail[i] by {
                assert(buf.subrange(pos, pos + spec_ser_strings(ss).len())[head.len() + i] == (head
                    + tail)[head.len() + i]);
            }
        }
        assert(forall|i: int| 0 <= i < ss.drop_first().len() ==> string_fits(
            #[trigger] ss.drop_first()[i],
        ));
        lemma_parse_strings_at(buf, p, ss.drop_first());
        assert(seq![ss[0]] + ss.drop_first() =~= ss);
    }
}

/// Wherever a buffer holds a serialized list of text fields, the list
/// parser recovers exactly that list.
pub proof fn lemma_parse_string_list_at(buf: Seq<u8>, pos: int, ss: Seq<Seq<char>>)
    requires
        strings_fit(ss),
        0 <= pos,
        pos + spec_ser_string_list(ss).len() <= buf.len(),
        buf.subrange(pos, pos + spec_ser_string_list(ss).len()) == spec_ser_string_list(ss),
    ensures
        spec_parse_string_list(buf, pos) == Some((ss, pos + spec_ser_string_list(ss).len())),
{
    lemma_auto_spec_u32_to_from_le_bytes();
    let cnt = spec_ser_u32(ss.len() as u32);
    let body = spec_ser_strings(ss);
    assert(spec_ser_string_list(ss) == cnt + body);
    assert(buf.subrange(pos, pos + 4) =~= cnt) by {
        assert forall|i: int| 0 <= i < 4 implies buf.subrange(pos, pos + 4)[i] == cnt[i] by {
            assert(buf.subrange(pos, pos + spec_ser_string_list(ss).len())[i] == (cnt + body)[i]);
        }
    }
    lemma_parse_u32_at(buf, pos, ss.len() as u32);
    assert(buf.subrange(pos + 4, pos + 4 + body.len()) =~= body) by {
        assert forall|i: int| 0 <= i < body.len() implies buf.subrange(
            pos + 4,
            pos + 4 + body.len(),
        )[i] == body[i] by {
            assert(buf.subrange(pos, pos + spec_ser_string_list(ss).len())[4 + i] == (cnt
                + body)[4 + i]);
        }
    }
    lemma_parse_strings_at(buf, pos + 4, ss);
}

/// Write a counted list of text fields.
pub fn write_string_list(out: &mut Vec<u8>, ss: &Vec<String>) -> (r: Result<(), CoreError>)
    ensures
        match r {
            Ok(u) => strings_fit(ss.deep_view()) && final(out)@ == old(out)@
                + spec_ser_string_list(ss.deep_view()),
            Err(e) => e == CoreError::EncodingError && !strings_fit(ss.deep_view()),
        },
{
    if ss.len() as u64 > u32::MAX as u64 {
        return Err(CoreError::EncodingError);
    }
    write_u32(out, ss.len() as u32);
    let ghost base = out@;
    let ghost views = ss.deep_view();
    let mut i: usize = 0;
    while i < ss.len()
        invariant
            i <= ss.len(),
            views == ss.deep_view(),
            views.len() == ss@.len(),
            forall|j: int| 0 <= j < i ==> string_fits(#[trigger] views[j]),
            out@ == base + spec_ser_strings(views.take(i as int)),
        decreases ss.len() - i,
    {
        assert(ss.deep_view()[i as int] == ss@[i as int]@);
        match write_string(out, ss[i].as_str()) {
            Ok(u) => {},
            Err(e) => {
                return Err(CoreError::EncodingError);
            },
        }
        proof {
            lemma_ser_strings_take_succ(views, i as int);
            assert((base + spec_ser_strings(views.take(i as int))) + spec_ser_string(
                views[i as int],
            ) =~= base + (spec_ser_strings(views.take(i as int)) + spec_ser_string(
                views[i as int],
            )));
        }
        i = i + 1;
    }
    proof {
        assert(views.take(views.len() as int) =~= views);
    }
    Ok(())
}

/// Read a counted list of text fields.
pub fn read_string_list(buf: &[u8], pos: usize) -> (r: Result<(Vec<String>, usize), CoreError>)
    ensures
        match r {
            Ok((v, p)) => spec_parse_string_list(buf@, pos as int) == Some(
                (v.deep_view(), p as int),
            ),
            Err(e) => e == CoreError::DecodingError && spec_parse_string_list(buf@, pos as int)
                is None,
        },
{
    let (count, start) = read_u32(buf, pos)?;
    let mut acc: Vec<String> = Vec::new();
    let mut cur = start;
    let mut i: u32 = 0;
    while i < count
        invariant
            i <= count,
            acc.deep_view().len() == i as nat,
            spec_parse_u32(buf@, pos as int) == Some((count, start as int)),
            spec_parse_strings(buf@, start as int, count as nat) == prepend_strings(
                acc.deep_view(),
                spec_parse_strings(buf@, cur as int, (count - i) as nat),
            ),
        decreases count - i,
    {
        let ghost acc0 = acc.deep_view();
        match read_string(buf, cur) {
            Ok((s, p)) => {
                proof {
                    let rest = spec_parse_strings(buf@, p as int, (count - i - 1) as nat);
                    assert(spec_parse_strings(buf@, cur as int, (count - i) as nat)
                        == prepend_strings(seq![s@], rest));
                    lemma_prepend_strings_assoc(acc0, seq![s@], rest);
                }
                acc.push(s);
                proof {
                    assert(acc.deep_view() =~= acc0 + seq![s@]);
                }
                cur = p;
            },
            Err(e) => {
                proof {
                    assert(spec_parse_strings(buf@, cur as int, (count - i) as nat) is None);
                    assert(spec_parse_strings(buf@, start as int, count as nat) is None);
                }
                return Err(CoreError::DecodingError);
            },
        }
        i = i + 1;
    }
    proof {
        assert(spec_parse_strings(buf@, cur as int, 0) == Some(
            (Seq::<Seq<char>>::empty(), cur as int),
        ));
        assert(acc.deep_view() + Seq::<Seq<char>>::empty() =~= acc.deep_view());
    }
    Ok((acc, cur))
}

/// Prefix a parsed tail of text fields with already-parsed elements.
spec fn prepend_strings(prefix: Seq<Seq<char>>, r: Option<(Seq<Seq<char>>, int)>) -> Option<
    (Seq<Seq<char>>, int),
> {
    match r {
        Some((ss, p)) => Some((prefix + ss, p)),
        None => None,
    }
}

proof fn lemma_prepend_strings_assoc(
    a: Seq<Seq<char>>,
    b: Seq<Seq<char>>,
    r: Option<(Seq<Seq<char>>, int)>,
)
    ensures
        prepend_strings(a, prepend_strings(b, r)) == prepend_strings(a + b, r),
{
    match r {
        Some((ss, p)) => {
            assert(a + (b + ss) =~= (a + b) + ss);
        },
        None => {},
    }
}

pub fn read_string(buf: &[u8], pos: usize) -> (r: Result<(String, usize), CoreError>)
    ensures
        match r {
            Ok((s, p)) => spec_parse_string(buf@, pos as int) == Some((s@, p as int)),
            Err(e) => e == CoreError::DecodingError && spec_parse_string(buf@, pos as int)
                is None,
        },
{
    let (b, p) = read_chunk(buf, pos)?;
    match string_from_utf8(b) {
        Some(s) => Ok((s, p)),
        None => Err(CoreError::DecodingError),
    }
}

/// A buffer that holds three consecutive pieces holds each piece as a
/// subrange at its own offset.
pub proof fn lemma_split3(buf: Seq<u8>, pos: int, s0: Seq<u8>, s1: Seq<u8>, s2: Seq<u8>)
    requires
        0 <= pos,
        pos + s0.len() + s1.len() + s2.len() <= buf.len(),
        buf.subrange(pos, pos + s0.len() + s1.len() + s2.len()) == s0 + s1 + s2,
    ensures
        buf.subrange(pos, pos + s0.len()) == s0,
        buf.subrange(pos + s0.len(), pos + s0.len() + s1.len()) == s1,
        buf.subrange(pos + s0.len() + s1.len(), pos + s0.len() + s1.len() + s2.len()) == s2,
{
    let whole = s0 + s1 + s2;
    let n = whole.len();
    assert(buf.subrange(pos, pos + s0.len()) =~= s0) by {
        assert forall|i: int| 0 <= i < s0.len() implies buf.subrange(pos, pos + s0.len())[i]
            == s0[i] by {
            assert(buf.subrange(pos, pos + n)[i] == whole[i]);
        }
    }
    assert(buf.subrange(pos + s0.len(), pos + s0.len() + s1.len()) =~= s1) by {
        assert forall|i: int| 0 <= i < s1.len() implies buf.subrange(
            pos + s0.len(),
            pos + s0.len() + s1.len(),
        )[i] == s1[i] by {
            assert(buf.subrange(pos, pos + n)[s0.len() + i] == whole[s0.len() + i]);
        }
    }
    assert(buf.subrange(pos + s0.len() + s1.len(), pos + s0.len() + s1.len() + s2.len()) =~= s2)
        by {
        assert forall|i: int| 0 <= i < s2.len() implies buf.subrange(
            pos + s0.len() + s1.len(),
            pos + s0.len() + s1.len() + s2.len(),
        )[i] == s2[i] by {
            assert(buf.subrange(pos, pos + n)[s0.len() + s1.len() + i] == whole[s0.len() + s1.len()
                + i]);
        }
    }
}


} // verus!
