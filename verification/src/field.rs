//! Writing the fields of a message, and reading back what was written.

use vstd::arithmetic::power::pow;
use vstd::prelude::*;
use vstd::utf8::{encode_utf8, encode_utf8_decode_utf8, encode_utf8_valid_utf8};

use crate::wire::{
    encode_varint, key, number_at, read_bytes, read_key, read_string, read_uint32, read_varint,
    varint, LENGTH_DELIMITED, MAX_TAG, MAX_VARINT_LEN, THIRTY_TWO_BIT, VARINT,
};

verus! {

/// The bytes of a `uint32` field. A field that has its default is left out.
pub open spec fn uint32_field(tag: u32, value: u32) -> Seq<u8> {
    if value == 0 {
        seq![]
    } else {
        key(tag, VARINT) + varint(value as nat)
    }
}

/// The bytes of a `bytes` field. A field that has its default is left out.
pub open spec fn bytes_field(tag: u32, value: Seq<u8>) -> Seq<u8> {
    if value.len() == 0 {
        seq![]
    } else {
        key(tag, LENGTH_DELIMITED) + (varint(value.len()) + value)
    }
}

/// The bytes of a `string` field. A field that has its default is left out.
pub open spec fn string_field(tag: u32, value: Seq<char>) -> Seq<u8> {
    if value.len() == 0 {
        seq![]
    } else {
        key(tag, LENGTH_DELIMITED) + (varint(encode_utf8(value).len()) + encode_utf8(value))
    }
}

/// Appends the key of a field.
fn put_key(tag: u32, wire_type: u8, buf: &mut Vec<u8>)
    requires
        1 <= tag <= MAX_TAG,
        wire_type <= THIRTY_TWO_BIT,
    ensures
        final(buf)@ == old(buf)@ + key(tag, wire_type),
{
    let mut bytes = encode_varint((tag * 8 + wire_type as u32) as u64);
    buf.append(&mut bytes);
}

/// Appends a `uint32` field.
pub(crate) fn put_uint32(tag: u32, value: u32, buf: &mut Vec<u8>)
    requires
        1 <= tag <= MAX_TAG,
    ensures
        final(buf)@ == old(buf)@ + uint32_field(tag, value),
{
    if value != 0 {
        put_key(tag, VARINT, buf);
        let mut bytes = encode_varint(value as u64);
        buf.append(&mut bytes);
    }
}

/// Appends a length and the bytes that it counts.
fn put_delimited(value: &[u8], buf: &mut Vec<u8>)
    ensures
        final(buf)@ == old(buf)@ + (varint(value@.len()) + value@),
        value@.len() <= u64::MAX,
{
    let mut bytes = encode_varint(value.len() as u64);
    buf.append(&mut bytes);
    buf.extend_from_slice(value);
}

/// Appends a `bytes` field.
pub(crate) fn put_bytes(tag: u32, value: &Vec<u8>, buf: &mut Vec<u8>)
    requires
        1 <= tag <= MAX_TAG,
    ensures
        final(buf)@ == old(buf)@ + bytes_field(tag, value@),
        value@.len() <= u64::MAX,
{
    if value.len() != 0 {
        put_key(tag, LENGTH_DELIMITED, buf);
        put_delimited(value.as_slice(), buf);
    }
}

/// Appends a `string` field.
pub(crate) fn put_string(tag: u32, value: &str, buf: &mut Vec<u8>)
    requires
        1 <= tag <= MAX_TAG,
    ensures
        final(buf)@ == old(buf)@ + string_field(tag, value@),
        encode_utf8(value@).len() <= u64::MAX,
{
    if !value.is_empty() {
        put_key(tag, LENGTH_DELIMITED, buf);
        put_delimited(value.as_bytes(), buf);
    }
}

/// The bytes of a number read as that number, whatever follows them.
proof fn lemma_number_at(v: nat, rest: Seq<u8>, limit: nat)
    requires
        0 < limit,
        v < pow(128, limit),
    ensures
        number_at(varint(v) + rest, limit) == Some((v, varint(v).len())),
    decreases limit,
{
    reveal_with_fuel(pow, 2);
    if v >= 128 {
        assert((varint(v) + rest).skip(1) =~= varint(v / 128) + rest);
        lemma_number_at(v / 128, rest, (limit - 1) as nat);
    }
}

/// The bytes of a 64-bit integer read as that integer, whatever follows them.
pub(crate) proof fn lemma_read_varint(v: u64, rest: Seq<u8>)
    ensures
        read_varint(varint(v as nat) + rest) == Some((v, varint(v as nat).len())),
        (varint(v as nat) + rest).skip(varint(v as nat).len() as int) == rest,
        varint(v as nat).len() > 0,
{
    assert(v < pow(128, 10)) by {
        reveal_with_fuel(pow, 11);
    }
    lemma_number_at(v as nat, rest, MAX_VARINT_LEN as nat);
    assert((varint(v as nat) + rest).skip(varint(v as nat).len() as int) =~= rest);
}

/// A key reads as its tag and its wire type, whatever follows it.
pub(crate) proof fn lemma_read_key(tag: u32, wire_type: u8, rest: Seq<u8>)
    requires
        1 <= tag <= MAX_TAG,
        wire_type <= THIRTY_TWO_BIT,
    ensures
        read_key(key(tag, wire_type) + rest) == Some((tag, wire_type, key(tag, wire_type).len())),
        (key(tag, wire_type) + rest).skip(key(tag, wire_type).len() as int) == rest,
        key(tag, wire_type).len() > 0,
{
    lemma_read_varint((tag * 8 + wire_type) as u64, rest);
}

/// The value of a `uint32` field reads as what was written, whatever follows it.
pub(crate) proof fn lemma_read_uint32(v: u32, rest: Seq<u8>)
    ensures
        read_uint32(VARINT, varint(v as nat) + rest) == Some((v, varint(v as nat).len())),
{
    lemma_read_varint(v as u64, rest);
}

/// The value of a `bytes` field reads as what was written, whatever follows it.
pub(crate) proof fn lemma_read_bytes(v: Seq<u8>, rest: Seq<u8>)
    requires
        v.len() <= u64::MAX,
    ensures
        read_bytes(LENGTH_DELIMITED, (varint(v.len()) + v) + rest) == Some(
            (v, (varint(v.len()) + v).len()),
        ),
{
    let s = (varint(v.len()) + v) + rest;
    assert(s =~= varint(v.len()) + (v + rest));
    lemma_read_varint(v.len() as u64, v + rest);
    let len = varint(v.len()).len();
    assert(s.subrange(len as int, (len + v.len()) as int) =~= v);
}

/// The value of a `string` field reads as what was written, whatever follows it.
pub(crate) proof fn lemma_read_string(v: Seq<char>, rest: Seq<u8>)
    requires
        encode_utf8(v).len() <= u64::MAX,
    ensures
        read_string(
            LENGTH_DELIMITED,
            (varint(encode_utf8(v).len()) + encode_utf8(v)) + rest,
        ) == Some((v, (varint(encode_utf8(v).len()) + encode_utf8(v)).len())),
{
    lemma_read_bytes(encode_utf8(v), rest);
    encode_utf8_valid_utf8(v);
    encode_utf8_decode_utf8(v);
}

/// The number whose digits in base 128 are the low seven bits of the bytes, low digits first.
pub open spec fn base_128(s: Seq<u8>) -> nat
    decreases s.len(),
{
    if s.len() == 0 {
        0
    } else {
        (s[0] % 128) as nat + 128 * base_128(s.skip(1))
    }
}

/// An integer is written in base 128, low digits first and without a leading zero, and the top bit
/// of a byte says that there are more.
pub proof fn integers_are_written_in_base_128(v: nat)
    ensures
        varint(v).len() > 0,
        base_128(varint(v)) == v,
        forall|i: int|
            0 <= i < varint(v).len() ==> (#[trigger] varint(v)[i] >= 128 <==> i < varint(v).len()
                - 1),
        varint(v).len() > 1 ==> varint(v).last() != 0,
    decreases v,
{
    let s = varint(v);
    if v < 128 {
        assert(s.skip(1) =~= seq![]);
        assert(base_128(s.skip(1)) == 0);
    } else {
        let high = varint(v / 128);
        integers_are_written_in_base_128(v / 128);
        assert(s.skip(1) =~= high);
        assert forall|i: int| 0 <= i < s.len() implies (#[trigger] s[i] >= 128 <==> i < s.len()
            - 1) by {
            if i > 0 {
                assert(s[i] == high[i - 1]);
            }
        }
        assert(s.last() == high.last());
        if high.len() == 1 {
            assert(base_128(high) == (high[0] % 128) as nat + 128 * base_128(high.skip(1)));
            assert(high.skip(1) =~= seq![]);
            assert(base_128(high.skip(1)) == 0);
        }
    }
}

} // verus!
