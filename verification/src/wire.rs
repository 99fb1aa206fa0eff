//! The wire format of worker events: the fields of a Protocol Buffers
//! message, read with the primitives of `prost`.
//!
//! A message is a run of fields. Each field begins with a key, a varint that
//! holds the number of the field and the wire type of its value.

use vstd::prelude::*;
use vstd::utf8::{
    decode_utf8, encode_utf8, encode_utf8_decode_utf8, encode_utf8_valid_utf8, valid_utf8,
};

verus! {

/// The wire type of a value that is a length followed by that many bytes.
pub const WIRE_LENGTH_DELIMITED: u8 = 2;

/// The highest wire type there is.
pub const WIRE_LAST: u8 = 5;

/// The varint whose bytes begin at `at`, counted from the start of the
/// varint: its value, with the byte at `at` as the lowest digit, and the
/// position after its last byte. A varint holds seven bits in each byte,
/// lowest first; every byte but the last has its top bit set. It has at most
/// ten bytes, and the tenth holds one bit.
pub open spec fn varint_from(bytes: Seq<u8>, at: nat) -> Option<(nat, nat)>
    decreases 10 - at,
{
    if at >= 10 || at >= bytes.len() {
        None
    } else if bytes[at as int] < 0x80 {
        if at == 9 && bytes[at as int] >= 2 {
            None
        } else {
            Some((bytes[at as int] as nat, at + 1))
        }
    } else {
        match varint_from(bytes, at + 1) {
            Some((higher, end)) => Some(((bytes[at as int] - 0x80) as nat + 128 * higher, end)),
            None => None,
        }
    }
}

/// The varint at the start of `bytes`: its value and the number of its
/// bytes, or `None` where the bytes begin with no varint.
pub open spec fn varint(bytes: Seq<u8>) -> Option<(nat, nat)> {
    varint_from(bytes, 0)
}

/// The key at the start of `bytes`: the number of the field, the wire type of
/// its value and the number of bytes of the key. A key is a varint that fits
/// in 32 bits; its three lowest bits are the wire type, which is no higher
/// than `WIRE_LAST`, and the rest is the number, which is not 0.
pub open spec fn field_key(bytes: Seq<u8>) -> Option<(u32, u8, nat)> {
    match varint(bytes) {
        Some((key, count)) => if key <= u32::MAX && key % 8 <= 5 && key / 8 >= 1 {
            Some(((key / 8) as u32, (key % 8) as u8, count))
        } else {
            None
        },
        None => None,
    }
}

/// The length-delimited value at the start of `bytes`: its content and the
/// number of bytes that it takes with its length. The length is a varint,
/// and that many bytes follow it.
pub open spec fn delimited(bytes: Seq<u8>) -> Option<(Seq<u8>, nat)> {
    match varint(bytes) {
        Some((length, count)) => if count + length <= bytes.len() {
            Some((bytes.subrange(count as int, (count + length) as int), count + length))
        } else {
            None
        },
        None => None,
    }
}

/// The text value of wire type `wire` at the start of `bytes`: the text and
/// the number of bytes that the value takes. A text is length-delimited and
/// holds valid UTF-8.
pub open spec fn text_field(wire: u8, bytes: Seq<u8>) -> Option<(Seq<char>, nat)> {
    if wire != WIRE_LENGTH_DELIMITED {
        None
    } else {
        match delimited(bytes) {
            Some((content, count)) => if valid_utf8(content) {
                Some((decode_utf8(content), count))
            } else {
                None
            },
            None => None,
        }
    }
}

/// What `prost::encoding::skip_field` leaves of `bytes` when it skips the
/// value of a field with this wire type and this number: the number of bytes that
/// follow the value, or `None` where it fails.
pub uninterp spec fn skipped_field(wire: u8, tag: u32, bytes: Seq<u8>) -> Option<usize>;

/// A varint has between one and ten bytes, all of them there.
pub proof fn lemma_varint_count(bytes: Seq<u8>)
    ensures
        varint(bytes) matches Some((value, count)) ==> 1 <= count <= 10 && count <= bytes.len(),
{
    lemma_varint_from_end(bytes, 0);
}

/// A varint ends after the place it is read from, within ten bytes and
/// within the bytes that are there.
proof fn lemma_varint_from_end(bytes: Seq<u8>, at: nat)
    ensures
        varint_from(bytes, at) matches Some((value, end)) ==> at < end <= 10 && end <= bytes.len(),
    decreases 10 - at,
{
    if at < 10 && at < bytes.len() && bytes[at as int] >= 0x80 {
        lemma_varint_from_end(bytes, at + 1);
    }
}

/// One more than the highest value that the bytes of a varint from `at` on
/// can hold: two for the tenth byte, and 128 times as much for each byte
/// before it.
pub open spec fn varint_ceiling(at: nat) -> nat
    decreases 9 - at,
{
    if at >= 9 {
        2
    } else {
        128 * varint_ceiling(at + 1)
    }
}

/// The value of a varint fits in 64 bits.
pub proof fn lemma_varint_fits(bytes: Seq<u8>)
    ensures
        varint(bytes) matches Some((value, count)) ==> value <= u64::MAX,
{
    lemma_varint_from_below_ceiling(bytes, 0);
    assert(varint_ceiling(0) == 0x1_0000_0000_0000_0000) by {
        reveal_with_fuel(varint_ceiling, 11);
    }
}

/// The digits of a varint from `at` on hold a value below the ceiling of
/// that place.
proof fn lemma_varint_from_below_ceiling(bytes: Seq<u8>, at: nat)
    ensures
        varint_from(bytes, at) matches Some((value, end)) ==> value < varint_ceiling(at),
    decreases 10 - at,
{
    if at < 10 && at < bytes.len() {
        if bytes[at as int] >= 0x80 {
            lemma_varint_from_below_ceiling(bytes, at + 1);
            if at >= 9 {
                assert(varint_from(bytes, at + 1) is None);
            }
        } else if at < 9 {
            lemma_ceiling_is_high(at);
        }
    }
}

/// The ceiling of every place but the last leaves room for a whole byte.
proof fn lemma_ceiling_is_high(at: nat)
    ensures
        varint_ceiling(at) >= 2,
        at < 9 ==> varint_ceiling(at) >= 128,
    decreases 9 - at,
{
    if at < 9 {
        lemma_ceiling_is_high(at + 1);
    }
}

/// The bytes of the varint that holds `value`: seven bits to a byte, lowest
/// first, with the top bit set in every byte but the last.
pub open spec fn varint_bytes(value: nat) -> Seq<u8>
    decreases value,
{
    if value < 128 {
        seq![value as u8]
    } else {
        seq![(value % 128 + 128) as u8] + varint_bytes(value / 128)
    }
}

/// The bytes of the key of field `tag` with a value of wire type `wire`.
pub open spec fn key_bytes(tag: u32, wire: u8) -> Seq<u8> {
    varint_bytes((tag * 8 + wire) as nat)
}

/// The bytes of a length-delimited value with this content.
pub open spec fn delimited_bytes(content: Seq<u8>) -> Seq<u8> {
    varint_bytes(content.len()) + content
}

/// The bytes of a text value.
pub open spec fn text_bytes(text: Seq<char>) -> Seq<u8> {
    delimited_bytes(encode_utf8(text))
}

/// The highest number that a field can have.
pub const MAX_TAG: u32 = 0x1fff_ffff;

/// The bytes of a value that stand after `before` are read back from there
/// as that value, if the value fits in the bytes that a varint has left.
proof fn lemma_varint_from_reads_back(before: Seq<u8>, value: nat, rest: Seq<u8>)
    requires
        before.len() <= 9,
        value < varint_ceiling(before.len()),
    ensures
        varint_from(before + varint_bytes(value) + rest, before.len()) == Some(
            (value, before.len() + varint_bytes(value).len()),
        ),
    decreases value,
{
    let at = before.len();
    let bytes = before + varint_bytes(value) + rest;
    assert(bytes[at as int] == varint_bytes(value)[0]);
    if value >= 128 {
        let low = (value % 128 + 128) as u8;
        let higher = value / 128;
        assert(at < 9) by {
            if at >= 9 {
                assert(varint_ceiling(at) == 2);
            }
        }
        assert(higher < varint_ceiling(at + 1));
        let longer = before + seq![low];
        lemma_varint_from_reads_back(longer, higher, rest);
        assert(longer + varint_bytes(higher) + rest =~= bytes);
    }
}

/// The varint that holds a value is read back as that value, whatever
/// follows it.
pub proof fn lemma_varint_reads_back(value: nat, rest: Seq<u8>)
    requires
        value <= u64::MAX,
    ensures
        varint(varint_bytes(value) + rest) == Some((value, varint_bytes(value).len())),
{
    assert(varint_ceiling(0) == 0x1_0000_0000_0000_0000) by {
        reveal_with_fuel(varint_ceiling, 11);
    }
    lemma_varint_from_reads_back(Seq::empty(), value, rest);
    assert(Seq::<u8>::empty() + varint_bytes(value) + rest =~= varint_bytes(value) + rest);
}

/// The key of a field is read back as its number and its wire type, whatever
/// follows it.
pub proof fn lemma_key_reads_back(tag: u32, wire: u8, rest: Seq<u8>)
    requires
        1 <= tag <= MAX_TAG,
        wire <= WIRE_LAST,
    ensures
        field_key(key_bytes(tag, wire) + rest) == Some((tag, wire, key_bytes(tag, wire).len())),
{
    lemma_varint_reads_back((tag * 8 + wire) as nat, rest);
}

/// A length-delimited value is read back as its content, whatever follows
/// it.
pub proof fn lemma_delimited_reads_back(content: Seq<u8>, rest: Seq<u8>)
    requires
        content.len() <= u64::MAX,
    ensures
        delimited(delimited_bytes(content) + rest) == Some(
            (content, delimited_bytes(content).len()),
        ),
{
    lemma_varint_reads_back(content.len(), content + rest);
    let count = varint_bytes(content.len()).len();
    let bytes = delimited_bytes(content) + rest;
    assert(bytes =~= varint_bytes(content.len()) + (content + rest));
    assert(bytes.subrange(count as int, (count + content.len()) as int) =~= content);
}

/// A text value is read back as the text, whatever follows it.
pub proof fn lemma_text_reads_back(text: Seq<char>, rest: Seq<u8>)
    requires
        encode_utf8(text).len() <= u64::MAX,
    ensures
        text_field(WIRE_LENGTH_DELIMITED, text_bytes(text) + rest) == Some(
            (text, text_bytes(text).len()),
        ),
{
    lemma_delimited_reads_back(encode_utf8(text), rest);
    encode_utf8_valid_utf8(text);
    encode_utf8_decode_utf8(text);
}

/// A key takes at least one byte, and the wire type it holds is one of
/// those there are.
pub proof fn lemma_field_key_count(bytes: Seq<u8>)
    ensures
        field_key(bytes) matches Some((tag, wire, count)) ==> 1 <= count <= bytes.len() && wire
            <= WIRE_LAST && tag >= 1,
{
    lemma_varint_count(bytes);
}

/// Calls `prost::encoding::decode_varint` on `bytes` and hands out the value
/// with the number of bytes that follow the varint. The contract says that
/// the call reads the varint at the start of `bytes` as `varint` defines it,
/// and fails where there is none.
#[verifier::external_body]
pub(crate) fn read_varint(bytes: &[u8]) -> (found: Option<(u64, usize)>)
    ensures
        match found {
            Some((value, left)) => left <= bytes.len() && varint(bytes@) == Some(
                (value as nat, (bytes.len() - left) as nat),
            ),
            None => varint(bytes@) is None,
        },
{
    let mut rest: &[u8] = bytes;
    match prost::encoding::decode_varint(&mut rest) {
        Ok(value) => Some((value, rest.len())),
        Err(_) => None,
    }
}

/// Calls `prost::encoding::decode_key` on `bytes` and hands out the number
/// of the field, the wire type of its value and the number of bytes that follow
/// the key. The contract says that the call reads the key at the start of
/// `bytes` as `field_key` defines it, and fails where there is none.
#[verifier::external_body]
pub(crate) fn read_key(bytes: &[u8]) -> (found: Option<(u32, u8, usize)>)
    ensures
        match found {
            Some((tag, wire, left)) => left <= bytes.len() && field_key(bytes@) == Some(
                (tag, wire, (bytes.len() - left) as nat),
            ),
            None => field_key(bytes@) is None,
        },
{
    let mut rest: &[u8] = bytes;
    match prost::encoding::decode_key(&mut rest) {
        Ok((tag, wire_type)) => Some((tag, wire_type as u8, rest.len())),
        Err(_) => None,
    }
}

/// Calls `prost::encoding::string::merge` on `bytes` for a value of wire type
/// `wire` and hands out the text with the number of bytes that follow the
/// value. The contract says that the call reads the text at the start of
/// `bytes` as `text_field` defines it, and fails where there is none: where
/// the wire type is not length-delimited, the length is no varint or exceeds what
/// is there, or the content is not UTF-8.
#[verifier::external_body]
pub(crate) fn read_text(wire: u8, bytes: &[u8]) -> (found: Option<(String, usize)>)
    requires
        wire <= WIRE_LAST,
    ensures
        match found {
            Some((text, left)) => left <= bytes.len() && text_field(wire, bytes@) == Some(
                (text@, (bytes.len() - left) as nat),
            ),
            None => text_field(wire, bytes@) is None,
        },
{
    let mut rest: &[u8] = bytes;
    let mut text = String::new();
    let wire_type = prost::encoding::WireType::try_from(u64::from(wire)).ok()?;
    let context = prost::encoding::DecodeContext::default();
    match prost::encoding::string::merge(wire_type, &mut text, &mut rest, context) {
        Ok(()) => Some((text, rest.len())),
        Err(_) => None,
    }
}

/// Calls `prost::encoding::skip_field` on `bytes` for a value of wire type
/// `wire` in field `tag` and hands out the number of bytes that follow the value.
/// The contract gives the result its name, and says that the call only ever
/// moves forward in `bytes`.
#[verifier::external_body]
pub(crate) fn skip_value(wire: u8, tag: u32, bytes: &[u8]) -> (left: Option<usize>)
    requires
        wire <= WIRE_LAST,
    ensures
        left == skipped_field(wire, tag, bytes@),
        left matches Some(count) ==> count <= bytes.len(),
{
    let mut rest: &[u8] = bytes;
    let wire_type = prost::encoding::WireType::try_from(u64::from(wire)).ok()?;
    let context = prost::encoding::DecodeContext::default();
    match prost::encoding::skip_field(wire_type, tag, &mut rest, context) {
        Ok(()) => Some(rest.len()),
        Err(_) => None,
    }
}

} // verus!
