//! Protobuf wire primitives: variable-length integers, field keys and field values.
//!
//! The spec functions say what bytes a value is written as and what a run of bytes reads as. The
//! functions that read or write go through `prost`, on buffers of the `bytes` crate. Where reading
//! fails, the error is named: its text is what `prost` says of the bytes.

use bytes::Bytes;
use prost::DecodeError;
use vstd::prelude::*;
use vstd::utf8::{decode_utf8, valid_utf8};

verus! {

/// The wire type of integers.
pub const VARINT: u8 = 0;

/// The wire type of eight-byte values.
pub const SIXTY_FOUR_BIT: u8 = 1;

/// The wire type of values that are preceded by their length.
pub const LENGTH_DELIMITED: u8 = 2;

/// The wire type that opens a group.
pub const START_GROUP: u8 = 3;

/// The wire type that closes a group.
pub const END_GROUP: u8 = 4;

/// The wire type of four-byte values, and the greatest wire type there is.
pub const THIRTY_TWO_BIT: u8 = 5;

/// The greatest tag that a field can have.
pub const MAX_TAG: u32 = 0x1FFF_FFFF;

/// How deep groups may lie in one another, and the fields in them, in a field that is skipped.
pub const MAX_DEPTH: u32 = 100;

/// The most bytes that a variable-length integer takes.
pub const MAX_VARINT_LEN: usize = 10;

/// The bytes of `v`, seven bits to a byte, low bits first; each byte but the last has its top bit
/// set.
pub open spec fn varint(v: nat) -> Seq<u8>
    decreases v,
{
    if v < 128 {
        seq![v as u8]
    } else {
        seq![(v % 128 + 128) as u8] + varint(v / 128)
    }
}

/// The number that `s` starts with, of any size, and how many bytes it takes, where it ends within
/// `limit` bytes.
pub open spec fn number_at(s: Seq<u8>, limit: nat) -> Option<(nat, nat)>
    decreases limit,
{
    if limit == 0 || s.len() == 0 {
        None
    } else if s[0] < 128 {
        Some((s[0] as nat, 1))
    } else {
        match number_at(s.skip(1), (limit - 1) as nat) {
            Some((high, len)) => Some(((high * 128 + (s[0] - 128)) as nat, len + 1)),
            None => None,
        }
    }
}

/// A number takes at least one byte, and no more than there are.
pub proof fn lemma_number_at_len(s: Seq<u8>, limit: nat)
    ensures
        number_at(s, limit) matches Some((_, len)) ==> 0 < len <= s.len(),
    decreases limit,
{
    if limit > 0 && s.len() > 0 && s[0] >= 128 {
        lemma_number_at_len(s.skip(1), (limit - 1) as nat);
    }
}

/// The 64-bit integer that `s` starts with, and how many bytes it takes. Bits beyond the 64th are
/// dropped.
pub open spec fn read_varint(s: Seq<u8>) -> Option<(u64, nat)> {
    match number_at(s, MAX_VARINT_LEN as nat) {
        Some((v, len)) => Some(((v % 0x1_0000_0000_0000_0000) as u64, len)),
        None => None,
    }
}

/// The key of the field `tag`, whose value has the wire type `wire_type`.
pub open spec fn key(tag: u32, wire_type: u8) -> Seq<u8> {
    varint((tag * 8 + wire_type) as nat)
}

/// The tag and the wire type of the key that `s` starts with, and how many bytes it takes.
pub open spec fn read_key(s: Seq<u8>) -> Option<(u32, u8, nat)> {
    match read_varint(s) {
        Some((k, len)) => if k <= u32::MAX && k % 8 <= THIRTY_TWO_BIT && k / 8 >= 1 {
            Some(((k / 8) as u32, (k % 8) as u8, len))
        } else {
            None
        },
        None => None,
    }
}

/// The value of a `uint32` field that `s` starts with, and how many bytes it takes. Bits beyond the
/// 32nd are dropped.
pub open spec fn read_uint32(wire_type: u8, s: Seq<u8>) -> Option<(u32, nat)> {
    match read_varint(s) {
        Some((v, len)) => if wire_type == VARINT {
            Some(((v as nat % 0x1_0000_0000) as u32, len))
        } else {
            None
        },
        None => None,
    }
}

/// The value of a `bytes` field that `s` starts with, and how many bytes it takes with its length.
pub open spec fn read_bytes(wire_type: u8, s: Seq<u8>) -> Option<(Seq<u8>, nat)> {
    match read_varint(s) {
        Some((size, len)) => if wire_type == LENGTH_DELIMITED && len + size <= s.len() {
            Some((s.subrange(len as int, len + size), len + size as nat))
        } else {
            None
        },
        None => None,
    }
}

/// The value of a `string` field that `s` starts with, and how many bytes it takes with its length.
pub open spec fn read_string(wire_type: u8, s: Seq<u8>) -> Option<(Seq<char>, nat)> {
    match read_bytes(wire_type, s) {
        Some((utf8, len)) => if valid_utf8(utf8) {
            Some((decode_utf8(utf8), len))
        } else {
            None
        },
        None => None,
    }
}

/// How many bytes the value of an unknown field takes at the start of `s`, where it can be skipped;
/// `group` is the number for a field that is a group.
pub open spec fn skip_len(wire_type: u8, s: Seq<u8>, group: Option<nat>) -> Option<nat> {
    let size: Option<nat> = if wire_type == VARINT {
        match read_varint(s) {
            Some((_, len)) => Some(len),
            None => None,
        }
    } else if wire_type == SIXTY_FOUR_BIT {
        Some(8)
    } else if wire_type == LENGTH_DELIMITED {
        match read_varint(s) {
            Some((size, len)) => Some(len + size as nat),
            None => None,
        }
    } else if wire_type == START_GROUP {
        group
    } else if wire_type == THIRTY_TWO_BIT {
        Some(4)
    } else {
        None
    };
    match size {
        Some(n) => if n <= s.len() {
            Some(n)
        } else {
            None
        },
        None => None,
    }
}

/// How many bytes the rest of the group `tag` takes, from behind its opening key to behind its
/// closing key, where `s` starts with one that can be skipped. Below the group, fields lie less
/// than `depth` deep.
pub open spec fn group_len(tag: u32, s: Seq<u8>, depth: nat) -> Option<nat>
    decreases depth, s.len(),
{
    match read_key(s) {
        Some((inner_tag, wire_type, key_len)) => if wire_type == END_GROUP {
            if inner_tag == tag {
                Some(key_len)
            } else {
                None
            }
        } else if depth <= 1 {
            None
        } else {
            proof {
                lemma_number_at_len(s, MAX_VARINT_LEN as nat);
            }
            let rest = s.skip(key_len as int);
            match skip_len(wire_type, rest, group_len(inner_tag, rest, (depth - 1) as nat)) {
                Some(len) => match group_len(tag, rest.skip(len as int), depth) {
                    Some(more) => Some(key_len + len + more),
                    None => None,
                },
                None => None,
            }
        },
        None => None,
    }
}

/// How many bytes the value of the unknown field `tag` takes at the start of `s`, where it can be
/// skipped.
pub open spec fn unknown_len(tag: u32, wire_type: u8, s: Seq<u8>) -> Option<nat> {
    skip_len(wire_type, s, group_len(tag, s, MAX_DEPTH as nat))
}

/// `bytes::Bytes`, a buffer that is read from its front.
#[verifier::external_type_specification]
#[verifier::external_body]
pub struct ExBytes(bytes::Bytes);

/// `prost::DecodeError`, why a message could not be read.
#[verifier::external_type_specification]
#[verifier::external_body]
pub struct ExDecodeError(prost::DecodeError);

/// What a buffer still holds.
pub uninterp spec fn contents(buf: Bytes) -> Seq<u8>;

/// `Bytes::from(Vec<u8>)`: the buffer holds the bytes of the vector.
#[verifier::external_body]
pub(crate) fn bytes_from_vec(vec: Vec<u8>) -> (res: Bytes)
    ensures
        contents(res) == vec@,
{
    Bytes::from(vec)
}

/// `to_vec` on the slice that a `Bytes` dereferences to: a copy of what the buffer holds.
#[verifier::external_body]
pub(crate) fn bytes_to_vec(buf: &Bytes) -> (res: Vec<u8>)
    ensures
        res@ == contents(*buf),
{
    buf.to_vec()
}

/// `Clone` on `Bytes`: a buffer that holds the same bytes.
#[verifier::external_body]
pub(crate) fn bytes_clone(buf: &Bytes) -> (res: Bytes)
    ensures
        contents(res) == contents(*buf),
{
    buf.clone()
}

/// `Buf::has_remaining` on `Bytes`: whether the buffer still holds a byte.
#[verifier::external_body]
pub(crate) fn has_remaining(buf: &Bytes) -> (res: bool)
    ensures
        res == (contents(*buf).len() > 0),
{
    bytes::Buf::has_remaining(buf)
}

/// `prost::encoding::encode_varint`, into an empty vector: the bytes of the integer.
#[verifier::external_body]
pub(crate) fn encode_varint(value: u64) -> (res: Vec<u8>)
    ensures
        res@ == varint(value as nat),
{
    let mut buf = Vec::new();
    prost::encoding::encode_varint(value, &mut buf);
    buf
}

/// Why bytes that start with no key cannot be read.
pub uninterp spec fn key_error(s: Seq<u8>) -> DecodeError;

/// `prost::encoding::decode_key`: reads a field key off the front of the buffer, and fails where
/// there is none, with an error that depends on the bytes alone.
#[verifier::external_body]
pub(crate) fn decode_key(buf: &mut Bytes) -> (res: Result<(u32, u8), DecodeError>)
    ensures
        match read_key(contents(*old(buf))) {
            Some((tag, wire_type, len)) => {
                &&& res == Ok::<(u32, u8), DecodeError>((tag, wire_type))
                &&& contents(*final(buf)) == contents(*old(buf)).skip(len as int)
            },
            None => res == Err::<(u32, u8), DecodeError>(key_error(contents(*old(buf)))),
        },
{
    match prost::encoding::decode_key(buf) {
        Ok((tag, wire_type)) => Ok((tag, wire_type as u8)),
        Err(err) => Err(err),
    }
}

/// Why bytes that start with no value of a `uint32` field of the wire type `wire_type` cannot be
/// read.
pub uninterp spec fn uint32_error(wire_type: u8, s: Seq<u8>) -> DecodeError;

/// `prost::encoding::uint32::merge`: reads the value of a `uint32` field off the front of the
/// buffer in place of `value`, and fails where there is none, with an error that depends on the
/// wire type and the bytes alone.
#[verifier::external_body]
pub(crate) fn merge_uint32(wire_type: u8, value: &mut u32, buf: &mut Bytes) -> (res: Result<
    (),
    DecodeError,
>)
    requires
        wire_type <= THIRTY_TWO_BIT,
    ensures
        match read_uint32(wire_type, contents(*old(buf))) {
            Some((v, len)) => {
                &&& res is Ok
                &&& *final(value) == v
                &&& contents(*final(buf)) == contents(*old(buf)).skip(len as int)
            },
            None => res == Err::<(), DecodeError>(uint32_error(wire_type, contents(*old(buf)))),
        },
{
    let wire_type = prost::encoding::WireType::try_from(u64::from(wire_type))?;
    prost::encoding::uint32::merge(wire_type, value, buf, Default::default())
}

/// Why bytes that start with no value of a `bytes` field of the wire type `wire_type` cannot be
/// read.
pub uninterp spec fn bytes_error(wire_type: u8, s: Seq<u8>) -> DecodeError;

/// `prost::encoding::bytes::merge`: reads the value of a `bytes` field off the front of the buffer
/// in place of `value`, and fails where there is none, with an error that depends on the wire type
/// and the bytes alone.
#[verifier::external_body]
pub(crate) fn merge_bytes(wire_type: u8, value: &mut Vec<u8>, buf: &mut Bytes) -> (res: Result<
    (),
    DecodeError,
>)
    requires
        wire_type <= THIRTY_TWO_BIT,
    ensures
        match read_bytes(wire_type, contents(*old(buf))) {
            Some((v, len)) => {
                &&& res is Ok
                &&& final(value)@ == v
                &&& contents(*final(buf)) == contents(*old(buf)).skip(len as int)
            },
            None => res == Err::<(), DecodeError>(bytes_error(wire_type, contents(*old(buf)))),
        },
{
    let wire_type = prost::encoding::WireType::try_from(u64::from(wire_type))?;
    prost::encoding::bytes::merge(wire_type, value, buf, Default::default())
}

/// Why bytes that start with no value of a `string` field of the wire type `wire_type` cannot be
/// read.
pub uninterp spec fn string_error(wire_type: u8, s: Seq<u8>) -> DecodeError;

/// `prost::encoding::string::merge`: reads the value of a `string` field off the front of the
/// buffer in place of `value`, and fails where there is none or it is not UTF-8, with an error that
/// depends on the wire type and the bytes alone.
#[verifier::external_body]
pub(crate) fn merge_string(wire_type: u8, value: &mut String, buf: &mut Bytes) -> (res: Result<
    (),
    DecodeError,
>)
    requires
        wire_type <= THIRTY_TWO_BIT,
    ensures
        match read_string(wire_type, contents(*old(buf))) {
            Some((v, len)) => {
                &&& res is Ok
                &&& final(value)@ == v
                &&& contents(*final(buf)) == contents(*old(buf)).skip(len as int)
            },
            None => res == Err::<(), DecodeError>(string_error(wire_type, contents(*old(buf)))),
        },
{
    let wire_type = prost::encoding::WireType::try_from(u64::from(wire_type))?;
    prost::encoding::string::merge(wire_type, value, buf, Default::default())
}

/// Why bytes that start with no value of an unknown field cannot be skipped.
pub uninterp spec fn skip_error(tag: u32, wire_type: u8, s: Seq<u8>) -> DecodeError;

/// `prost::encoding::skip_field`, from a fresh context: takes the value of an unknown field off the
/// front of the buffer, and fails where there is none to take, with an error that depends on the
/// field and the bytes alone. A group is taken with every field in it, to its closing key.
#[verifier::external_body]
pub(crate) fn skip_field(wire_type: u8, tag: u32, buf: &mut Bytes) -> (res: Result<(), DecodeError>)
    requires
        wire_type <= THIRTY_TWO_BIT,
    ensures
        match unknown_len(tag, wire_type, contents(*old(buf))) {
            Some(len) => {
                &&& res is Ok
                &&& contents(*final(buf)) == contents(*old(buf)).skip(len as int)
            },
            None => res == Err::<(), DecodeError>(
                skip_error(tag, wire_type, contents(*old(buf))),
            ),
        },
{
    let wire_type = prost::encoding::WireType::try_from(u64::from(wire_type))?;
    prost::encoding::skip_field(wire_type, tag, buf, Default::default())
}

/// A decode error, marked with the message and the field in which it arose.
pub uninterp spec fn located(err: DecodeError, message: Seq<char>, field: Seq<char>) -> DecodeError;

/// `DecodeError::push`: the error, marked with the message and the field in which it arose. The
/// mark shows in the text of the error alone.
#[verifier::external_body]
pub(crate) fn push_location(err: DecodeError, message: &'static str, field: &'static str) -> (res:
    DecodeError)
    ensures
        res == located(err, message@, field@),
{
    let mut err = err;
    err.push(message, field);
    err
}

} // verus!
