//! The messages of the RPC protocol.

use bytes::Bytes;
use prost::DecodeError;
use vstd::prelude::*;
use vstd::utf8::encode_utf8;

use crate::field::{
    bytes_field, lemma_read_bytes, lemma_read_string, lemma_read_uint32, put_bytes, put_string,
    put_uint32, string_field, uint32_field,
};
use crate::message::{
    decoded, in_field, lemma_merged_bytes, lemma_merged_step, lemma_merged_string,
    lemma_merged_uint32, lemma_refused_field, merged, placed, skipped, WireFormat, WireMessage,
};
use crate::wire::{
    bytes_error, contents, key, lemma_number_at_len, located, merge_bytes, merge_string,
    merge_uint32, read_bytes, read_string, read_uint32, skip_error, skip_field, string_error,
    uint32_error, unknown_len, varint, LENGTH_DELIMITED, MAX_TAG, MAX_VARINT_LEN, THIRTY_TWO_BIT,
    VARINT,
};

verus! {

/// A request, as it travels.
#[derive(Debug, Clone, PartialEq)]
pub struct RpcRequest {
    pub request_id: u32,
    pub method: u32,
    pub message: Vec<u8>,
}

/// The values of the fields of a request.
#[verifier::ext_equal]
pub struct RpcRequestView {
    pub request_id: u32,
    pub method: u32,
    pub message: Seq<u8>,
}

impl View for RpcRequest {
    type V = RpcRequestView;

    open spec fn view(&self) -> RpcRequestView {
        RpcRequestView {
            request_id: self.request_id,
            method: self.method,
            message: self.message@,
        }
    }
}

impl WireFormat for RpcRequest {
    open spec fn initial() -> RpcRequestView {
        RpcRequestView { request_id: 0, method: 0, message: seq![] }
    }

    open spec fn merged_field(m: RpcRequestView, tag: u32, wire_type: u8, s: Seq<u8>) -> Result<
        (RpcRequestView, nat),
        DecodeError,
    > {
        if tag == 1 {
            placed(
                read_uint32(wire_type, s),
                |v: u32| RpcRequestView { request_id: v, ..m },
                located(uint32_error(wire_type, s), "RpcRequest"@, "request_id"@),
            )
        } else if tag == 2 {
            placed(
                read_uint32(wire_type, s),
                |v: u32| RpcRequestView { method: v, ..m },
                located(uint32_error(wire_type, s), "RpcRequest"@, "method"@),
            )
        } else if tag == 4 {
            placed(
                read_bytes(wire_type, s),
                |v: Seq<u8>| RpcRequestView { message: v, ..m },
                located(bytes_error(wire_type, s), "RpcRequest"@, "message"@),
            )
        } else {
            skipped(m, tag, wire_type, s)
        }
    }

    open spec fn encoded(m: RpcRequestView) -> Seq<u8> {
        uint32_field(1, m.request_id) + uint32_field(2, m.method) + bytes_field(4, m.message)
    }

    open spec fn fits(m: RpcRequestView) -> bool {
        m.message.len() <= u64::MAX
    }
}

impl WireMessage for RpcRequest {
    proof fn reads_back(m: RpcRequestView) {
        let m0 = RpcRequest::initial();
        let m1 = RpcRequestView { request_id: m.request_id, ..m0 };
        let m2 = RpcRequestView { method: m.method, ..m1 };
        let f1 = uint32_field(1, m.request_id);
        let f2 = uint32_field(2, m.method);
        let f4 = bytes_field(4, m.message);
        lemma_merged_uint32::<RpcRequest>(
            m0,
            |v: u32| RpcRequestView { request_id: v, ..m0 },
            1,
            m.request_id,
            f2 + f4,
        );
        lemma_merged_uint32::<RpcRequest>(
            m1,
            |v: u32| RpcRequestView { method: v, ..m1 },
            2,
            m.method,
            f4,
        );
        assert(m.message.len() == 0 ==> m.message =~= seq![]);
        lemma_merged_bytes::<RpcRequest>(
            m2,
            |v: Seq<u8>| RpcRequestView { message: v, ..m2 },
            4,
            m.message,
            seq![],
        );
        assert(f1 + f2 + f4 =~= f1 + (f2 + f4));
        assert(f4 + seq![] =~= f4);
    }

    fn empty() -> (res: RpcRequest) {
        RpcRequest { request_id: 0, method: 0, message: Vec::new() }
    }

    fn merge_field(&mut self, tag: u32, wire_type: u8, buf: &mut Bytes) -> (res: Result<
        (),
        DecodeError,
    >) {
        proof {
            lemma_number_at_len(contents(*buf), MAX_VARINT_LEN as nat);
        }
        match tag {
            1 => in_field(
                merge_uint32(wire_type, &mut self.request_id, buf),
                "RpcRequest",
                "request_id",
            ),
            2 => in_field(merge_uint32(wire_type, &mut self.method, buf), "RpcRequest", "method"),
            4 => in_field(merge_bytes(wire_type, &mut self.message, buf), "RpcRequest", "message"),
            _ => skip_field(wire_type, tag, buf),
        }
    }

    fn to_encoded_bytes(&self) -> (res: Vec<u8>) {
        let mut buf: Vec<u8> = Vec::new();
        put_uint32(1, self.request_id, &mut buf);
        put_uint32(2, self.method, &mut buf);
        put_bytes(4, &self.message, &mut buf);
        buf
    }
}

impl Default for RpcRequest {
    fn default() -> (res: RpcRequest)
        ensures
            res@ == RpcRequest::initial(),
            res.request_id == 0 && res.method == 0 && res.message@.len() == 0,
    {
        RpcRequest::empty()
    }
}

/// A field that a request does not have makes no difference to it, where it can be skipped.
pub proof fn requests_ignore_unknown_fields(
    m: RpcRequestView,
    tag: u32,
    wire_type: u8,
    value: Seq<u8>,
    rest: Seq<u8>,
)
    requires
        1 <= tag <= MAX_TAG,
        tag != 1 && tag != 2 && tag != 4,
        wire_type <= THIRTY_TWO_BIT,
    ensures
        unknown_len(tag, wire_type, value + rest) == Some(value.len())
            ==> merged::<RpcRequest>(m, key(tag, wire_type) + value + rest)
            == merged::<RpcRequest>(m, rest),
{
    if unknown_len(tag, wire_type, value + rest) == Some(value.len()) {
        lemma_merged_step::<RpcRequest>(m, m, tag, wire_type, value, rest);
    }
}

/// A response, as it travels.
#[derive(Debug, Clone, PartialEq)]
pub struct RpcResponse {
    pub request_id: u32,
    pub method: u32,
    pub status: u32,
    pub error: String,
    pub message: Vec<u8>,
}

/// The values of the fields of a response.
#[verifier::ext_equal]
pub struct RpcResponseView {
    pub request_id: u32,
    pub method: u32,
    pub status: u32,
    pub error: Seq<char>,
    pub message: Seq<u8>,
}

impl View for RpcResponse {
    type V = RpcResponseView;

    open spec fn view(&self) -> RpcResponseView {
        RpcResponseView {
            request_id: self.request_id,
            method: self.method,
            status: self.status,
            error: self.error@,
            message: self.message@,
        }
    }
}

impl WireFormat for RpcResponse {
    open spec fn initial() -> RpcResponseView {
        RpcResponseView { request_id: 0, method: 0, status: 0, error: seq![], message: seq![] }
    }

    open spec fn merged_field(m: RpcResponseView, tag: u32, wire_type: u8, s: Seq<u8>) -> Result<
        (RpcResponseView, nat),
        DecodeError,
    > {
        if tag == 1 {
            placed(
                read_uint32(wire_type, s),
                |v: u32| RpcResponseView { request_id: v, ..m },
                located(uint32_error(wire_type, s), "RpcResponse"@, "request_id"@),
            )
        } else if tag == 2 {
            placed(
                read_uint32(wire_type, s),
                |v: u32| RpcResponseView { method: v, ..m },
                located(uint32_error(wire_type, s), "RpcResponse"@, "method"@),
            )
        } else if tag == 3 {
            placed(
                read_uint32(wire_type, s),
                |v: u32| RpcResponseView { status: v, ..m },
                located(uint32_error(wire_type, s), "RpcResponse"@, "status"@),
            )
        } else if tag == 4 {
            placed(
                read_string(wire_type, s),
                |v: Seq<char>| RpcResponseView { error: v, ..m },
                located(string_error(wire_type, s), "RpcResponse"@, "error"@),
            )
        } else if tag == 5 {
            placed(
                read_bytes(wire_type, s),
                |v: Seq<u8>| RpcResponseView { message: v, ..m },
                located(bytes_error(wire_type, s), "RpcResponse"@, "message"@),
            )
        } else {
            skipped(m, tag, wire_type, s)
        }
    }

    open spec fn encoded(m: RpcResponseView) -> Seq<u8> {
        uint32_field(1, m.request_id) + uint32_field(2, m.method) + uint32_field(3, m.status)
            + string_field(4, m.error) + bytes_field(5, m.message)
    }

    open spec fn fits(m: RpcResponseView) -> bool {
        &&& encode_utf8(m.error).len() <= u64::MAX
        &&& m.message.len() <= u64::MAX
    }
}

impl WireMessage for RpcResponse {
    proof fn reads_back(m: RpcResponseView) {
        let m0 = RpcResponse::initial();
        let m1 = RpcResponseView { request_id: m.request_id, ..m0 };
        let m2 = RpcResponseView { method: m.method, ..m1 };
        let m3 = RpcResponseView { status: m.status, ..m2 };
        let m4 = RpcResponseView { error: m.error, ..m3 };
        let f1 = uint32_field(1, m.request_id);
        let f2 = uint32_field(2, m.method);
        let f3 = uint32_field(3, m.status);
        let f4 = string_field(4, m.error);
        let f5 = bytes_field(5, m.message);
        lemma_merged_uint32::<RpcResponse>(
            m0,
            |v: u32| RpcResponseView { request_id: v, ..m0 },
            1,
            m.request_id,
            f2 + (f3 + (f4 + f5)),
        );
        lemma_merged_uint32::<RpcResponse>(
            m1,
            |v: u32| RpcResponseView { method: v, ..m1 },
            2,
            m.method,
            f3 + (f4 + f5),
        );
        lemma_merged_uint32::<RpcResponse>(
            m2,
            |v: u32| RpcResponseView { status: v, ..m2 },
            3,
            m.status,
            f4 + f5,
        );
        assert(m.error.len() == 0 ==> m.error =~= seq![]);
        lemma_merged_string::<RpcResponse>(
            m3,
            |v: Seq<char>| RpcResponseView { error: v, ..m3 },
            4,
            m.error,
            f5,
        );
        assert(m.message.len() == 0 ==> m.message =~= seq![]);
        lemma_merged_bytes::<RpcResponse>(
            m4,
            |v: Seq<u8>| RpcResponseView { message: v, ..m4 },
            5,
            m.message,
            seq![],
        );
        assert(f1 + f2 + f3 + f4 + f5 =~= f1 + (f2 + (f3 + (f4 + f5))));
        assert(f5 + seq![] =~= f5);
    }

    fn empty() -> (res: RpcResponse) {
        RpcResponse {
            request_id: 0,
            method: 0,
            status: 0,
            error: String::new(),
            message: Vec::new(),
        }
    }

    fn merge_field(&mut self, tag: u32, wire_type: u8, buf: &mut Bytes) -> (res: Result<
        (),
        DecodeError,
    >) {
        proof {
            lemma_number_at_len(contents(*buf), MAX_VARINT_LEN as nat);
        }
        match tag {
            1 => in_field(
                merge_uint32(wire_type, &mut self.request_id, buf),
                "RpcResponse",
                "request_id",
            ),
            2 => in_field(merge_uint32(wire_type, &mut self.method, buf), "RpcResponse", "method"),
            3 => in_field(merge_uint32(wire_type, &mut self.status, buf), "RpcResponse", "status"),
            4 => in_field(merge_string(wire_type, &mut self.error, buf), "RpcResponse", "error"),
            5 => in_field(merge_bytes(wire_type, &mut self.message, buf), "RpcResponse", "message"),
            _ => skip_field(wire_type, tag, buf),
        }
    }

    fn to_encoded_bytes(&self) -> (res: Vec<u8>) {
        let mut buf: Vec<u8> = Vec::new();
        put_uint32(1, self.request_id, &mut buf);
        put_uint32(2, self.method, &mut buf);
        put_uint32(3, self.status, &mut buf);
        put_string(4, self.error.as_str(), &mut buf);
        put_bytes(5, &self.message, &mut buf);
        buf
    }
}

impl Default for RpcResponse {
    fn default() -> (res: RpcResponse)
        ensures
            res@ == RpcResponse::initial(),
            res.request_id == 0 && res.method == 0 && res.status == 0,
            res.error@.len() == 0 && res.message@.len() == 0,
    {
        RpcResponse::empty()
    }
}

/// A field that a response does not have makes no difference to it, where it can be skipped.
pub proof fn responses_ignore_unknown_fields(
    m: RpcResponseView,
    tag: u32,
    wire_type: u8,
    value: Seq<u8>,
    rest: Seq<u8>,
)
    requires
        1 <= tag <= MAX_TAG,
        tag != 1 && tag != 2 && tag != 3 && tag != 4 && tag != 5,
        wire_type <= THIRTY_TWO_BIT,
    ensures
        unknown_len(tag, wire_type, value + rest) == Some(value.len())
            ==> merged::<RpcResponse>(m, key(tag, wire_type) + value + rest)
            == merged::<RpcResponse>(m, rest),
{
    if unknown_len(tag, wire_type, value + rest) == Some(value.len()) {
        lemma_merged_step::<RpcResponse>(m, m, tag, wire_type, value, rest);
    }
}

/// The fields of a request are read by their tags: `request_id` in field 1, `method` in field 2,
/// `message` in field 4. Each is set to the value that stands behind its key, whatever it was, and
/// the others stay.
pub proof fn request_fields_have_their_tags(
    m: RpcRequestView,
    request_id: u32,
    method: u32,
    message: Seq<u8>,
    rest: Seq<u8>,
)
    requires
        message.len() <= u64::MAX,
    ensures
        merged::<RpcRequest>(
            m,
            seq![0x08u8] + varint(request_id as nat) + rest,
        ) == merged::<RpcRequest>(RpcRequestView { request_id, ..m }, rest),
        merged::<RpcRequest>(
            m,
            seq![0x10u8] + varint(method as nat) + rest,
        ) == merged::<RpcRequest>(RpcRequestView { method, ..m }, rest),
        merged::<RpcRequest>(
            m,
            seq![0x22u8] + (varint(message.len()) + message) + rest,
        ) == merged::<RpcRequest>(RpcRequestView { message, ..m }, rest),
{
    assert(key(1, VARINT) =~= seq![0x08u8]);
    lemma_read_uint32(request_id, rest);
    lemma_merged_step::<RpcRequest>(
        m,
        RpcRequestView { request_id, ..m },
        1,
        VARINT,
        varint(request_id as nat),
        rest,
    );
    assert(key(2, VARINT) =~= seq![0x10u8]);
    lemma_read_uint32(method, rest);
    lemma_merged_step::<RpcRequest>(
        m,
        RpcRequestView { method, ..m },
        2,
        VARINT,
        varint(method as nat),
        rest,
    );
    assert(key(4, LENGTH_DELIMITED) =~= seq![0x22u8]);
    lemma_read_bytes(message, rest);
    lemma_merged_step::<RpcRequest>(
        m,
        RpcRequestView { message, ..m },
        4,
        LENGTH_DELIMITED,
        varint(message.len()) + message,
        rest,
    );
}

/// The bytes of a request are its fields in the order of their tags, each behind its key, and
/// without those that have their default.
pub proof fn request_bytes(m: RpcRequestView)
    ensures
        RpcRequest::encoded(m) == (if m.request_id == 0 {
            seq![]
        } else {
            seq![0x08u8] + varint(m.request_id as nat)
        }) + (if m.method == 0 {
            seq![]
        } else {
            seq![0x10u8] + varint(m.method as nat)
        }) + (if m.message.len() == 0 {
            seq![]
        } else {
            seq![0x22u8] + (varint(m.message.len()) + m.message)
        }),
{
    assert(key(1, VARINT) =~= seq![0x08u8]);
    assert(key(2, VARINT) =~= seq![0x10u8]);
    assert(key(4, LENGTH_DELIMITED) =~= seq![0x22u8]);
}

/// What is read from the bytes of a request has the values of all its fields.
pub proof fn request_fields_read_back(message: RpcRequest)
    requires
        RpcRequest::fits(message@),
    ensures
        decoded::<RpcRequest>(RpcRequest::encoded(message@)) matches Ok(m) && {
            &&& m.request_id == message.request_id
            &&& m.method == message.method
            &&& m.message == message.message@
        },
{
    RpcRequest::reads_back(message@);
}

/// A request of which no field has been read has zeros and empty values.
pub proof fn request_fields_default()
    ensures
        decoded::<RpcRequest>(seq![]) matches Ok(m) && {
            &&& m.request_id == 0
            &&& m.method == 0
            &&& m.message.len() == 0
        },
{
}

/// A field of a request whose value cannot be read has the whole refused, with an error that is
/// marked with that field.
pub proof fn request_fields_are_refused(m: RpcRequestView, wire_type: u8, s: Seq<u8>)
    requires
        wire_type <= THIRTY_TWO_BIT,
    ensures
        read_uint32(wire_type, s) is None ==> merged::<RpcRequest>(m, key(1, wire_type) + s)
            == Err::<RpcRequestView, DecodeError>(
            located(uint32_error(wire_type, s), "RpcRequest"@, "request_id"@),
        ),
        read_uint32(wire_type, s) is None ==> merged::<RpcRequest>(m, key(2, wire_type) + s)
            == Err::<RpcRequestView, DecodeError>(
            located(uint32_error(wire_type, s), "RpcRequest"@, "method"@),
        ),
        read_bytes(wire_type, s) is None ==> merged::<RpcRequest>(m, key(4, wire_type) + s)
            == Err::<RpcRequestView, DecodeError>(
            located(bytes_error(wire_type, s), "RpcRequest"@, "message"@),
        ),
{
    if read_uint32(wire_type, s) is None {
        lemma_refused_field::<RpcRequest>(m, 1, wire_type, s);
        lemma_refused_field::<RpcRequest>(m, 2, wire_type, s);
    }
    if read_bytes(wire_type, s) is None {
        lemma_refused_field::<RpcRequest>(m, 4, wire_type, s);
    }
}

/// The fields of a response are read by their tags: `request_id` in field 1, `method` in field 2,
/// `status` in field 3, `error` in field 4, `message` in field 5. Each is set to the value that
/// stands behind its key, whatever it was, and the others stay.
pub proof fn response_fields_have_their_tags(
    m: RpcResponseView,
    request_id: u32,
    method: u32,
    status: u32,
    error: Seq<char>,
    message: Seq<u8>,
    rest: Seq<u8>,
)
    requires
        encode_utf8(error).len() <= u64::MAX,
        message.len() <= u64::MAX,
    ensures
        merged::<RpcResponse>(
            m,
            seq![0x08u8] + varint(request_id as nat) + rest,
        ) == merged::<RpcResponse>(RpcResponseView { request_id, ..m }, rest),
        merged::<RpcResponse>(
            m,
            seq![0x10u8] + varint(method as nat) + rest,
        ) == merged::<RpcResponse>(RpcResponseView { method, ..m }, rest),
        merged::<RpcResponse>(
            m,
            seq![0x18u8] + varint(status as nat) + rest,
        ) == merged::<RpcResponse>(RpcResponseView { status, ..m }, rest),
        merged::<RpcResponse>(
            m,
            seq![0x22u8] + (varint(encode_utf8(error).len()) + encode_utf8(error)) + rest,
        ) == merged::<RpcResponse>(RpcResponseView { error, ..m }, rest),
        merged::<RpcResponse>(
            m,
            seq![0x2Au8] + (varint(message.len()) + message) + rest,
        ) == merged::<RpcResponse>(RpcResponseView { message, ..m }, rest),
{
    assert(key(1, VARINT) =~= seq![0x08u8]);
    lemma_read_uint32(request_id, rest);
    lemma_merged_step::<RpcResponse>(
        m,
        RpcResponseView { request_id, ..m },
        1,
        VARINT,
        varint(request_id as nat),
        rest,
    );
    assert(key(2, VARINT) =~= seq![0x10u8]);
    lemma_read_uint32(method, rest);
    lemma_merged_step::<RpcResponse>(
        m,
        RpcResponseView { method, ..m },
        2,
        VARINT,
        varint(method as nat),
        rest,
    );
    assert(key(3, VARINT) =~= seq![0x18u8]);
    lemma_read_uint32(status, rest);
    lemma_merged_step::<RpcResponse>(
        m,
        RpcResponseView { status, ..m },
        3,
        VARINT,
        varint(status as nat),
        rest,
    );
    assert(key(4, LENGTH_DELIMITED) =~= seq![0x22u8]);
    lemma_read_string(error, rest);
    lemma_merged_step::<RpcResponse>(
        m,
        RpcResponseView { error, ..m },
        4,
        LENGTH_DELIMITED,
        varint(encode_utf8(error).len()) + encode_utf8(error),
        rest,
    );
    assert(key(5, LENGTH_DELIMITED) =~= seq![0x2Au8]);
    lemma_read_bytes(message, rest);
    lemma_merged_step::<RpcResponse>(
        m,
        RpcResponseView { message, ..m },
        5,
        LENGTH_DELIMITED,
        varint(message.len()) + message,
        rest,
    );
}

/// The bytes of a response are its fields in the order of their tags, each behind its key, and
/// without those that have their default.
pub proof fn response_bytes(m: RpcResponseView)
    ensures
        RpcResponse::encoded(m) == (if m.request_id == 0 {
            seq![]
        } else {
            seq![0x08u8] + varint(m.request_id as nat)
        }) + (if m.method == 0 {
            seq![]
        } else {
            seq![0x10u8] + varint(m.method as nat)
        }) + (if m.status == 0 {
            seq![]
        } else {
            seq![0x18u8] + varint(m.status as nat)
        }) + (if m.error.len() == 0 {
            seq![]
        } else {
            seq![0x22u8] + (varint(encode_utf8(m.error).len()) + encode_utf8(m.error))
        }) + (if m.message.len() == 0 {
            seq![]
        } else {
            seq![0x2Au8] + (varint(m.message.len()) + m.message)
        }),
{
    assert(key(1, VARINT) =~= seq![0x08u8]);
    assert(key(2, VARINT) =~= seq![0x10u8]);
    assert(key(3, VARINT) =~= seq![0x18u8]);
    assert(key(4, LENGTH_DELIMITED) =~= seq![0x22u8]);
    assert(key(5, LENGTH_DELIMITED) =~= seq![0x2Au8]);
}

/// What is read from the bytes of a response has the values of all its fields.
pub proof fn response_fields_read_back(message: RpcResponse)
    requires
        RpcResponse::fits(message@),
    ensures
        decoded::<RpcResponse>(RpcResponse::encoded(message@)) matches Ok(m) && {
            &&& m.request_id == message.request_id
            &&& m.method == message.method
            &&& m.status == message.status
            &&& m.error == message.error@
            &&& m.message == message.message@
        },
{
    RpcResponse::reads_back(message@);
}

/// A response of which no field has been read has zeros and empty values.
pub proof fn response_fields_default()
    ensures
        decoded::<RpcResponse>(seq![]) matches Ok(m) && {
            &&& m.request_id == 0
            &&& m.method == 0
            &&& m.status == 0
            &&& m.error.len() == 0
            &&& m.message.len() == 0
        },
{
}

/// A field of a response whose value cannot be read has the whole refused, with an error that is
/// marked with that field.
pub proof fn response_fields_are_refused(m: RpcResponseView, wire_type: u8, s: Seq<u8>)
    requires
        wire_type <= THIRTY_TWO_BIT,
    ensures
        read_uint32(wire_type, s) is None ==> merged::<RpcResponse>(m, key(1, wire_type) + s)
            == Err::<RpcResponseView, DecodeError>(
            located(uint32_error(wire_type, s), "RpcResponse"@, "request_id"@),
        ),
        read_uint32(wire_type, s) is None ==> merged::<RpcResponse>(m, key(2, wire_type) + s)
            == Err::<RpcResponseView, DecodeError>(
            located(uint32_error(wire_type, s), "RpcResponse"@, "method"@),
        ),
        read_uint32(wire_type, s) is None ==> merged::<RpcResponse>(m, key(3, wire_type) + s)
            == Err::<RpcResponseView, DecodeError>(
            located(uint32_error(wire_type, s), "RpcResponse"@, "status"@),
        ),
        read_string(wire_type, s) is None ==> merged::<RpcResponse>(m, key(4, wire_type) + s)
            == Err::<RpcResponseView, DecodeError>(
            located(string_error(wire_type, s), "RpcResponse"@, "error"@),
        ),
        read_bytes(wire_type, s) is None ==> merged::<RpcResponse>(m, key(5, wire_type) + s)
            == Err::<RpcResponseView, DecodeError>(
            located(bytes_error(wire_type, s), "RpcResponse"@, "message"@),
        ),
{
    if read_uint32(wire_type, s) is None {
        lemma_refused_field::<RpcResponse>(m, 1, wire_type, s);
        lemma_refused_field::<RpcResponse>(m, 2, wire_type, s);
        lemma_refused_field::<RpcResponse>(m, 3, wire_type, s);
    }
    if read_string(wire_type, s) is None {
        lemma_refused_field::<RpcResponse>(m, 4, wire_type, s);
    }
    if read_bytes(wire_type, s) is None {
        lemma_refused_field::<RpcResponse>(m, 5, wire_type, s);
    }
}

/// A field that a message of the protocol does not have, and that cannot be skipped, has it
/// refused.
pub proof fn unknown_fields_are_refused(
    request: RpcRequestView,
    response: RpcResponseView,
    tag: u32,
    wire_type: u8,
    s: Seq<u8>,
)
    requires
        1 <= tag <= MAX_TAG,
        wire_type <= THIRTY_TWO_BIT,
        unknown_len(tag, wire_type, s) is None,
    ensures
        tag != 1 && tag != 2 && tag != 4 ==> merged::<RpcRequest>(request, key(tag, wire_type) + s)
            == Err::<RpcRequestView, DecodeError>(skip_error(tag, wire_type, s)),
        tag > 5 ==> merged::<RpcResponse>(response, key(tag, wire_type) + s)
            == Err::<RpcResponseView, DecodeError>(skip_error(tag, wire_type, s)),
{
    if tag != 1 && tag != 2 && tag != 4 {
        lemma_refused_field::<RpcRequest>(request, tag, wire_type, s);
    }
    if tag > 5 {
        lemma_refused_field::<RpcResponse>(response, tag, wire_type, s);
    }
}

} // verus!
