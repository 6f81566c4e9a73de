//! Messages that travel as bytes.

use bytes::Bytes;
use prost::DecodeError;
use vstd::prelude::*;
use vstd::utf8::encode_utf8;

use crate::field::{
    bytes_field, lemma_read_bytes, lemma_read_key, lemma_read_string,
    lemma_read_uint32, string_field, uint32_field,
};
use crate::wire::{
    contents, decode_key, has_remaining, key, key_error, lemma_number_at_len, located,
    push_location, read_bytes, read_key, read_string, read_uint32, skip_error, skip_field,
    unknown_len, varint, LENGTH_DELIMITED, MAX_TAG, MAX_VARINT_LEN, THIRTY_TWO_BIT, VARINT,
};

verus! {

/// How a message looks as bytes.
///
/// Its view is the values of its fields. The bytes are a sequence of fields, each a key and a
/// value, in any order; a field that is absent has its default, and of a field that occurs twice
/// the last value stands.
pub trait WireFormat: View + Sized {
    /// The message in which every field has its default.
    spec fn initial() -> Self::V;

    /// The message after the value at the start of `s`, of the field `tag`, has been merged into
    /// `m`, and how many bytes that value takes, or why it cannot be merged.
    spec fn merged_field(m: Self::V, tag: u32, wire_type: u8, s: Seq<u8>) -> Result<
        (Self::V, nat),
        DecodeError,
    >;

    /// The bytes of a message.
    spec fn encoded(m: Self::V) -> Seq<u8>;

    /// Whether each length in the message can be written, as it can in a message in memory.
    spec fn fits(m: Self::V) -> bool;
}

/// A message that can be written to bytes and read back from them.
pub trait WireMessage: WireFormat {
    /// A message is what its bytes read as.
    proof fn reads_back(m: Self::V)
        requires
            Self::fits(m),
        ensures
            decoded::<Self>(Self::encoded(m)) == Ok::<Self::V, DecodeError>(m),
    ;

    /// The message in which every field has its default.
    fn empty() -> (res: Self)
        ensures
            res@ == Self::initial(),
    ;

    /// Reads the value of the field `tag` off the front of the buffer and merges it into the
    /// message.
    fn merge_field(&mut self, tag: u32, wire_type: u8, buf: &mut Bytes) -> (res: Result<
        (),
        DecodeError,
    >)
        requires
            wire_type <= THIRTY_TWO_BIT,
        ensures
            match Self::merged_field(old(self)@, tag, wire_type, contents(*old(buf))) {
                Ok((m, len)) => {
                    &&& res is Ok
                    &&& final(self)@ == m
                    &&& contents(*final(buf)) == contents(*old(buf)).skip(len as int)
                    &&& len <= contents(*old(buf)).len()
                },
                Err(err) => res == Err::<(), DecodeError>(err),
            },
    ;

    /// The bytes of the message.
    fn to_encoded_bytes(&self) -> (res: Vec<u8>)
        ensures
            res@ == Self::encoded(self@),
            Self::fits(self@),
    ;
}

/// What is left of `s` behind its first `n` bytes.
pub open spec fn behind(s: Seq<u8>, n: nat) -> Seq<u8> {
    if n <= s.len() {
        s.skip(n as int)
    } else {
        seq![]
    }
}

/// The message after the fields in `s` have been merged into `m`, or why not all of `s` can be
/// read.
pub open spec fn merged<M: WireFormat>(m: M::V, s: Seq<u8>) -> Result<M::V, DecodeError>
    decreases s.len(),
{
    if s.len() == 0 {
        Ok(m)
    } else {
        match read_key(s) {
            Some((tag, wire_type, key_len)) => {
                proof {
                    lemma_number_at_len(s, MAX_VARINT_LEN as nat);
                }
                match M::merged_field(m, tag, wire_type, s.skip(key_len as int)) {
                    Ok((next, len)) => merged::<M>(next, behind(s.skip(key_len as int), len)),
                    Err(err) => Err(err),
                }
            },
            None => Err(key_error(s)),
        }
    }
}

/// The message that `s` reads as, or why not all of `s` can be read.
pub open spec fn decoded<M: WireFormat>(s: Seq<u8>) -> Result<M::V, DecodeError> {
    merged::<M>(M::initial(), s)
}

/// A value that was read, put in its place in a message, or `err` where none was read.
pub open spec fn placed<T, V>(
    read: Option<(T, nat)>,
    place: spec_fn(T) -> V,
    err: DecodeError,
) -> Result<(V, nat), DecodeError> {
    match read {
        Some((value, len)) => Ok((place(value), len)),
        None => Err(err),
    }
}

/// The message `m` after an unknown field, which leaves it as it is.
pub open spec fn skipped<V>(m: V, tag: u32, wire_type: u8, s: Seq<u8>) -> Result<
    (V, nat),
    DecodeError,
> {
    match unknown_len(tag, wire_type, s) {
        Some(len) => Ok((m, len)),
        None => Err(skip_error(tag, wire_type, s)),
    }
}

/// Reads a message from the whole of a buffer.
pub fn decode<M: WireMessage>(buf: Bytes) -> (res: Result<M, DecodeError>)
    ensures
        match decoded::<M>(contents(buf)) {
            Ok(m) => res matches Ok(message) && message@ == m,
            Err(err) => res == Err::<M, DecodeError>(err),
        },
{
    let mut message = M::empty();
    let mut rest = buf;
    while has_remaining(&rest)
        invariant
            merged::<M>(message@, contents(rest)) == decoded::<M>(contents(buf)),
        decreases contents(rest).len(),
    {
        proof {
            lemma_number_at_len(contents(rest), MAX_VARINT_LEN as nat);
        }
        match decode_key(&mut rest) {
            Ok((tag, wire_type)) => {
                match message.merge_field(tag, wire_type, &mut rest) {
                    Ok(()) => {},
                    Err(err) => {
                        return Err(err);
                    },
                }
            },
            Err(err) => {
                return Err(err);
            },
        }
    }
    Ok(message)
}

/// What came of reading a field, with an error marked by the message and the field.
pub(crate) fn in_field(
    res: Result<(), DecodeError>,
    message: &'static str,
    field: &'static str,
) -> (marked: Result<(), DecodeError>)
    ensures
        marked == match res {
            Ok(()) => Ok::<(), DecodeError>(()),
            Err(err) => Err(located(err, message@, field@)),
        },
{
    match res {
        Ok(()) => Ok(()),
        Err(err) => Err(push_location(err, message, field)),
    }
}

/// The message that carries nothing.
impl WireFormat for () {
    open spec fn initial() -> () {
        ()
    }

    open spec fn merged_field(m: (), tag: u32, wire_type: u8, s: Seq<u8>) -> Result<
        ((), nat),
        DecodeError,
    > {
        skipped(m, tag, wire_type, s)
    }

    open spec fn encoded(m: ()) -> Seq<u8> {
        seq![]
    }

    open spec fn fits(m: ()) -> bool {
        true
    }
}

impl WireMessage for () {
    proof fn reads_back(m: ()) {
    }

    fn empty() -> (res: ()) {
        ()
    }

    fn merge_field(&mut self, tag: u32, wire_type: u8, buf: &mut Bytes) -> (res: Result<
        (),
        DecodeError,
    >) {
        skip_field(wire_type, tag, buf)
    }

    fn to_encoded_bytes(&self) -> (res: Vec<u8>) {
        Vec::new()
    }
}

/// Reading goes on behind a field as it would from the message into which that field was merged.
pub(crate) proof fn lemma_merged_step<M: WireFormat>(
    m: M::V,
    next: M::V,
    tag: u32,
    wire_type: u8,
    value: Seq<u8>,
    rest: Seq<u8>,
)
    requires
        1 <= tag <= MAX_TAG,
        wire_type <= THIRTY_TWO_BIT,
        M::merged_field(m, tag, wire_type, value + rest) == Ok::<(M::V, nat), DecodeError>(
            (next, value.len()),
        ),
    ensures
        merged::<M>(m, key(tag, wire_type) + value + rest) == merged::<M>(next, rest),
{
    let s = key(tag, wire_type) + value + rest;
    assert(s =~= key(tag, wire_type) + (value + rest));
    lemma_read_key(tag, wire_type, value + rest);
    assert((value + rest).skip(value.len() as int) =~= rest);
}

/// Reading goes on behind a `uint32` field as it would from the message that holds its value.
pub(crate) proof fn lemma_merged_uint32<M: WireFormat>(
    m: M::V,
    place: spec_fn(u32) -> M::V,
    tag: u32,
    value: u32,
    rest: Seq<u8>,
)
    requires
        1 <= tag <= MAX_TAG,
        value == 0 ==> place(value) == m,
        forall|s: Seq<u8>|
            read_uint32(VARINT, s) matches Some((v, len)) ==> #[trigger] M::merged_field(
                m,
                tag,
                VARINT,
                s,
            ) == Ok::<(M::V, nat), DecodeError>((place(v), len)),
    ensures
        merged::<M>(m, uint32_field(tag, value) + rest) == merged::<M>(place(value), rest),
{
    if value == 0 {
        assert(uint32_field(tag, value) + rest =~= rest);
    } else {
        lemma_read_uint32(value, rest);
        lemma_merged_step::<M>(m, place(value), tag, VARINT, varint(value as nat), rest);
    }
}

/// Reading goes on behind a `bytes` field as it would from the message that holds its value.
pub(crate) proof fn lemma_merged_bytes<M: WireFormat>(
    m: M::V,
    place: spec_fn(Seq<u8>) -> M::V,
    tag: u32,
    value: Seq<u8>,
    rest: Seq<u8>,
)
    requires
        1 <= tag <= MAX_TAG,
        value.len() <= u64::MAX,
        value.len() == 0 ==> place(value) == m,
        forall|s: Seq<u8>|
            read_bytes(LENGTH_DELIMITED, s) matches Some((v, len)) ==> #[trigger] M::merged_field(
                m,
                tag,
                LENGTH_DELIMITED,
                s,
            ) == Ok::<(M::V, nat), DecodeError>((place(v), len)),
    ensures
        merged::<M>(m, bytes_field(tag, value) + rest) == merged::<M>(place(value), rest),
{
    if value.len() == 0 {
        assert(bytes_field(tag, value) + rest =~= rest);
    } else {
        lemma_read_bytes(value, rest);
        lemma_merged_step::<M>(
            m,
            place(value),
            tag,
            LENGTH_DELIMITED,
            varint(value.len()) + value,
            rest,
        );
    }
}

/// Reading goes on behind a `string` field as it would from the message that holds its value.
pub(crate) proof fn lemma_merged_string<M: WireFormat>(
    m: M::V,
    place: spec_fn(Seq<char>) -> M::V,
    tag: u32,
    value: Seq<char>,
    rest: Seq<u8>,
)
    requires
        1 <= tag <= MAX_TAG,
        encode_utf8(value).len() <= u64::MAX,
        value.len() == 0 ==> place(value) == m,
        forall|s: Seq<u8>|
            read_string(LENGTH_DELIMITED, s) matches Some((v, len)) ==> #[trigger] M::merged_field(
                m,
                tag,
                LENGTH_DELIMITED,
                s,
            ) == Ok::<(M::V, nat), DecodeError>((place(v), len)),
    ensures
        merged::<M>(m, string_field(tag, value) + rest) == merged::<M>(place(value), rest),
{
    if value.len() == 0 {
        assert(string_field(tag, value) + rest =~= rest);
    } else {
        lemma_read_string(value, rest);
        lemma_merged_step::<M>(
            m,
            place(value),
            tag,
            LENGTH_DELIMITED,
            varint(encode_utf8(value).len()) + encode_utf8(value),
            rest,
        );
    }
}

/// Where there is nothing to read, a message stays as it is.
pub proof fn nothing_changes_nothing<M: WireFormat>(m: M::V)
    ensures
        merged::<M>(m, seq![]) == Ok::<M::V, DecodeError>(m),
{
}

/// Bytes that do not start with a key are refused, with the error of reading the key.
pub proof fn bytes_without_a_key_are_refused<M: WireFormat>(m: M::V, s: Seq<u8>)
    requires
        s.len() > 0,
        read_key(s) is None,
    ensures
        merged::<M>(m, s) == Err::<M::V, DecodeError>(key_error(s)),
{
}

/// A message is refused where a field in it is, with the error of that field.
pub(crate) proof fn lemma_refused_field<M: WireFormat>(
    m: M::V,
    tag: u32,
    wire_type: u8,
    s: Seq<u8>,
)
    requires
        1 <= tag <= MAX_TAG,
        wire_type <= THIRTY_TWO_BIT,
        M::merged_field(m, tag, wire_type, s) is Err,
    ensures
        merged::<M>(m, key(tag, wire_type) + s) == Err::<M::V, DecodeError>(
            M::merged_field(m, tag, wire_type, s)->Err_0,
        ),
{
    lemma_read_key(tag, wire_type, s);
}

/// The message that carries nothing has no bytes, and reads from all bytes whose fields can be
/// skipped.
pub proof fn nothing_ignores_every_field(tag: u32, wire_type: u8, value: Seq<u8>, rest: Seq<u8>)
    requires
        1 <= tag <= MAX_TAG,
        wire_type <= THIRTY_TWO_BIT,
    ensures
        <() as WireFormat>::encoded(()).len() == 0,
        unknown_len(tag, wire_type, value + rest) == Some(value.len()) ==> merged::<()>(
            (),
            key(tag, wire_type) + value + rest,
        ) == merged::<()>((), rest),
        unknown_len(tag, wire_type, value) is None ==> merged::<()>(
            (),
            key(tag, wire_type) + value,
        ) is Err,
{
    if unknown_len(tag, wire_type, value + rest) == Some(value.len()) {
        lemma_merged_step::<()>((), (), tag, wire_type, value, rest);
    }
    if unknown_len(tag, wire_type, value) is None {
        lemma_refused_field::<()>((), tag, wire_type, value);
    }
}

} // verus!
