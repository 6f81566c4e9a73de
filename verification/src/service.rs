//! A service that greets.

use bytes::Bytes;
use prost::DecodeError;
use vstd::prelude::*;
use vstd::utf8::encode_utf8;

use crate::error::RpcError;
use crate::field::{
    lemma_read_string, lemma_read_uint32, put_string, put_uint32, string_field, uint32_field,
};
use crate::message::{
    decoded, in_field, lemma_merged_step, lemma_merged_string, lemma_merged_uint32,
    lemma_refused_field, merged, placed, skipped, WireFormat, WireMessage,
};
use crate::proto::{RpcRequest, RpcRequestView, RpcResponse};
use crate::rpc::{
    response_to, EnumVariants, MethodId, RawRequest, RawRequestView, RawResponse, Request,
    RequestId, Response, Rpc, RpcService, ToEnum,
};
use crate::status::{unreadable_status, RpcStatus, RpcStatusCode, RpcStatusView};
use crate::text::{append_decimal, decimal, decimal_stands_for_the_number, number_of};
use crate::wire::{
    bytes_clone, contents, key, lemma_number_at_len, located, merge_string, merge_uint32,
    read_string, read_uint32, skip_error, skip_field, string_error, uint32_error, unknown_len,
    varint, LENGTH_DELIMITED, MAX_TAG, MAX_VARINT_LEN, THIRTY_TWO_BIT, VARINT,
};

verus! {

/// The methods of the service, in the order of their numbers.
#[derive(Debug, Clone, Copy, PartialEq, Eq, Structural)]
pub enum TestServiceMethods {
    SayHello,
    Error,
}

impl EnumVariants for TestServiceMethods {
    open spec fn all_variants() -> Seq<TestServiceMethods> {
        seq![TestServiceMethods::SayHello, TestServiceMethods::Error]
    }

    proof fn lists_each_once() {
        let variants = Self::all_variants();
        assert forall|v: TestServiceMethods| #[trigger] variants.contains(v) by {
            assert(variants[0] == TestServiceMethods::SayHello);
            assert(variants[1] == TestServiceMethods::Error);
        }
    }

    fn variants() -> (res: Vec<TestServiceMethods>) {
        vec![TestServiceMethods::SayHello, TestServiceMethods::Error]
    }
}

/// Who is to be greeted.
#[derive(Debug, Clone, PartialEq)]
pub struct SayHelloRequest {
    pub name: String,
    pub age: u32,
}

/// The values of the fields of a request for a greeting.
#[verifier::ext_equal]
pub struct SayHelloRequestView {
    pub name: Seq<char>,
    pub age: u32,
}

impl View for SayHelloRequest {
    type V = SayHelloRequestView;

    open spec fn view(&self) -> SayHelloRequestView {
        SayHelloRequestView { name: self.name@, age: self.age }
    }
}

impl WireFormat for SayHelloRequest {
    open spec fn initial() -> SayHelloRequestView {
        SayHelloRequestView { name: seq![], age: 0 }
    }

    open spec fn merged_field(
        m: SayHelloRequestView,
        tag: u32,
        wire_type: u8,
        s: Seq<u8>,
    ) -> Result<
        (SayHelloRequestView, nat),
        DecodeError,
    > {
        if tag == 1 {
            placed(
                read_string(wire_type, s),
                |v: Seq<char>| SayHelloRequestView { name: v, ..m },
                located(string_error(wire_type, s), "SayHelloRequest"@, "name"@),
            )
        } else if tag == 2 {
            placed(
                read_uint32(wire_type, s),
                |v: u32| SayHelloRequestView { age: v, ..m },
                located(uint32_error(wire_type, s), "SayHelloRequest"@, "age"@),
            )
        } else {
            skipped(m, tag, wire_type, s)
        }
    }

    open spec fn encoded(m: SayHelloRequestView) -> Seq<u8> {
        string_field(1, m.name) + uint32_field(2, m.age)
    }

    open spec fn fits(m: SayHelloRequestView) -> bool {
        encode_utf8(m.name).len() <= u64::MAX
    }
}

impl WireMessage for SayHelloRequest {
    proof fn reads_back(m: SayHelloRequestView) {
        let m0 = SayHelloRequest::initial();
        let m1 = SayHelloRequestView { name: m.name, ..m0 };
        let f2 = uint32_field(2, m.age);
        assert(m.name.len() == 0 ==> m.name =~= seq![]);
        lemma_merged_string::<SayHelloRequest>(
            m0,
            |v: Seq<char>| SayHelloRequestView { name: v, ..m0 },
            1,
            m.name,
            f2,
        );
        lemma_merged_uint32::<SayHelloRequest>(
            m1,
            |v: u32| SayHelloRequestView { age: v, ..m1 },
            2,
            m.age,
            seq![],
        );
        assert(f2 + seq![] =~= f2);
    }

    fn empty() -> (res: SayHelloRequest) {
        SayHelloRequest { name: String::new(), age: 0 }
    }

    fn merge_field(&mut self, tag: u32, wire_type: u8, buf: &mut Bytes) -> (res: Result<
        (),
        DecodeError,
    >) {
        proof {
            lemma_number_at_len(contents(*buf), MAX_VARINT_LEN as nat);
        }
        match tag {
            1 => in_field(merge_string(wire_type, &mut self.name, buf), "SayHelloRequest", "name"),
            2 => in_field(merge_uint32(wire_type, &mut self.age, buf), "SayHelloRequest", "age"),
            _ => skip_field(wire_type, tag, buf),
        }
    }

    fn to_encoded_bytes(&self) -> (res: Vec<u8>) {
        let mut buf: Vec<u8> = Vec::new();
        put_string(1, self.name.as_str(), &mut buf);
        put_uint32(2, self.age, &mut buf);
        buf
    }
}

impl Default for SayHelloRequest {
    fn default() -> (res: SayHelloRequest)
        ensures
            res@ == SayHelloRequest::initial(),
            res.name@.len() == 0 && res.age == 0,
    {
        SayHelloRequest::empty()
    }
}

/// A greeting.
#[derive(Debug, Clone, PartialEq)]
pub struct SayHelloResponse {
    pub greeting: String,
}

/// The value of the field of a greeting.
#[verifier::ext_equal]
pub struct SayHelloResponseView {
    pub greeting: Seq<char>,
}

impl View for SayHelloResponse {
    type V = SayHelloResponseView;

    open spec fn view(&self) -> SayHelloResponseView {
        SayHelloResponseView { greeting: self.greeting@ }
    }
}

impl WireFormat for SayHelloResponse {
    open spec fn initial() -> SayHelloResponseView {
        SayHelloResponseView { greeting: seq![] }
    }

    open spec fn merged_field(
        m: SayHelloResponseView,
        tag: u32,
        wire_type: u8,
        s: Seq<u8>,
    ) -> Result<
        (SayHelloResponseView, nat),
        DecodeError,
    > {
        if tag == 1 {
            placed(
                read_string(wire_type, s),
                |v: Seq<char>| SayHelloResponseView { greeting: v },
                located(string_error(wire_type, s), "SayHelloResponse"@, "greeting"@),
            )
        } else {
            skipped(m, tag, wire_type, s)
        }
    }

    open spec fn encoded(m: SayHelloResponseView) -> Seq<u8> {
        string_field(1, m.greeting)
    }

    open spec fn fits(m: SayHelloResponseView) -> bool {
        encode_utf8(m.greeting).len() <= u64::MAX
    }
}

impl WireMessage for SayHelloResponse {
    proof fn reads_back(m: SayHelloResponseView) {
        let m0 = SayHelloResponse::initial();
        let f1 = string_field(1, m.greeting);
        assert(m.greeting.len() == 0 ==> m.greeting =~= seq![]);
        lemma_merged_string::<SayHelloResponse>(
            m0,
            |v: Seq<char>| SayHelloResponseView { greeting: v },
            1,
            m.greeting,
            seq![],
        );
        assert(f1 + seq![] =~= f1);
    }

    fn empty() -> (res: SayHelloResponse) {
        SayHelloResponse { greeting: String::new() }
    }

    fn merge_field(&mut self, tag: u32, wire_type: u8, buf: &mut Bytes) -> (res: Result<
        (),
        DecodeError,
    >) {
        proof {
            lemma_number_at_len(contents(*buf), MAX_VARINT_LEN as nat);
        }
        match tag {
            1 => in_field(
                merge_string(wire_type, &mut self.greeting, buf),
                "SayHelloResponse",
                "greeting",
            ),
            _ => skip_field(wire_type, tag, buf),
        }
    }

    fn to_encoded_bytes(&self) -> (res: Vec<u8>) {
        let mut buf: Vec<u8> = Vec::new();
        put_string(1, self.greeting.as_str(), &mut buf);
        buf
    }
}

impl Default for SayHelloResponse {
    fn default() -> (res: SayHelloResponse)
        ensures
            res@ == SayHelloResponse::initial(),
            res.greeting@.len() == 0,
    {
        SayHelloResponse::empty()
    }
}

/// A service with a method that greets and a method that fails.
pub trait TestService {
    fn say_hello(&self, request: Request<SayHelloRequest>) -> Result<
        Response<SayHelloResponse>,
        RpcStatus,
    >;

    fn error(&self, request: Request<()>) -> Result<Response<()>, RpcStatus>;
}

/// A service that greets with the words given.
pub struct TestServiceImpl {
    pub greeting: String,
}

/// The text of a greeting.
pub open spec fn hello(greeting: Seq<char>, name: Seq<char>, age: u32) -> Seq<char> {
    greeting + " "@ + name + ", "@ + decimal(age as nat)
}

/// The status of a call of the method that fails.
pub open spec fn error_status() -> RpcStatusView {
    RpcStatusView {
        code: RpcStatusCode::NotImplemented,
        details: "error method is not implemented"@,
    }
}

impl TestService for TestServiceImpl {
    fn say_hello(&self, request: Request<SayHelloRequest>) -> (res: Result<
        Response<SayHelloResponse>,
        RpcStatus,
    >)
        ensures
            res matches Ok(response) && response.message.greeting@ == hello(
                self.greeting@,
                request.message.name@,
                request.message.age,
            ),
            res matches Ok(response) && response.message.greeting@ == self.greeting@ + " "@
                + request.message.name@ + ", "@ + decimal(request.message.age as nat),
    {
        let mut greeting: String = self.greeting.clone();
        greeting.append(" ");
        greeting.append(request.message.name.as_str());
        greeting.append(", ");
        append_decimal(request.message.age, &mut greeting);
        Ok(Response::new(SayHelloResponse { greeting }))
    }

    fn error(&self, request: Request<()>) -> (res: Result<Response<()>, RpcStatus>)
        ensures
            res matches Err(status) && status@ == error_status(),
            res matches Err(status) && status.code == RpcStatusCode::NotImplemented
                && status.details@ == "error method is not implemented"@,
    {
        Err(RpcStatus::not_implemented("error method is not implemented".to_owned()))
    }
}

/// What the service makes of a request for one of its methods, by the message of the request.
pub open spec fn call_outcome(
    greeting: Seq<char>,
    method: TestServiceMethods,
    payload: Seq<u8>,
) -> Result<Seq<u8>, RpcStatusView> {
    match method {
        TestServiceMethods::SayHello => match decoded::<SayHelloRequest>(payload) {
            Ok(m) => Ok(
                SayHelloResponse::encoded(
                    SayHelloResponseView { greeting: hello(greeting, m.name, m.age) },
                ),
            ),
            Err(_) => Err(unreadable_status()),
        },
        TestServiceMethods::Error => match decoded::<()>(payload) {
            Ok(_) => Err(error_status()),
            Err(_) => Err(unreadable_status()),
        },
    }
}

impl RpcService for TestServiceImpl {
    open spec fn serves(&self, method: MethodId) -> bool {
        TestServiceMethods::variant(method) is Some
    }

    open spec fn answers(
        &self,
        request: RawRequestView,
        outcome: Result<Seq<u8>, RpcStatusView>,
    ) -> bool {
        TestServiceMethods::variant(request.method) matches Some(method) && outcome
            == call_outcome(self.greeting@, method, request.payload)
    }

    fn call(&self, req: RawRequest) -> (res: Result<RawResponse, RpcStatus>)
        ensures
            res matches Ok(response) ==> {
                &&& decoded::<SayHelloRequest>(contents(req.payload)) matches Ok(asked)
                &&& decoded::<SayHelloResponse>(contents(response.payload)) matches Ok(said)
                &&& said.greeting == hello(self.greeting@, asked.name, asked.age)
            },
    {
        let method: Option<TestServiceMethods> = req.method();
        match method.unwrap() {
            TestServiceMethods::SayHello => {
                let request = match req.decode::<SayHelloRequest>() {
                    Ok(request) => request,
                    Err(err) => {
                        return Err(RpcStatus::from(err));
                    },
                };
                match self.say_hello(request) {
                    Ok(resp) => Ok(resp.encode()),
                    Err(status) => Err(status),
                }
            },
            TestServiceMethods::Error => {
                let request = match req.decode::<()>() {
                    Ok(request) => request,
                    Err(err) => {
                        return Err(RpcStatus::from(err));
                    },
                };
                match self.error(request) {
                    Ok(resp) => Ok(resp.encode()),
                    Err(status) => Err(status),
                }
            },
        }
    }
}

impl Rpc<TestServiceImpl> {
    /// Handles a message from the peer, unless it is a request for a method that the service does
    /// not have.
    pub fn try_handle_message(&self, msg: Bytes) -> (res: Option<Result<RpcResponse, RpcError>>)
        ensures
            match decoded::<RpcRequest>(contents(msg)) {
                Ok(m) => match TestServiceMethods::variant(m.method) {
                    Some(method) => res matches Some(Ok(response)) && response@ == response_to(
                        m.request_id,
                        m.method,
                        call_outcome(self.service.greeting@, method, m.message),
                    ),
                    None => res is None,
                },
                Err(err) => res == Some(
                    Err::<RpcResponse, RpcError>(RpcError::DecodeError(err)),
                ),
            },
    {
        if let Ok(req) = self.read_request(bytes_clone(&msg)) {
            let method: Option<TestServiceMethods> = req.method();
            if method.is_none() {
                return None;
            }
        }
        Some(self.handle_message(msg))
    }
}

/// The greeting has the number 0 and the method that fails the number 1; no other number stands for
/// a method.
pub proof fn method_numbers(value: MethodId)
    ensures
        TestServiceMethods::variant(value) == if value == 0 {
            Some(TestServiceMethods::SayHello)
        } else if value == 1 {
            Some(TestServiceMethods::Error)
        } else {
            None
        },
{
}

/// Who asks to be greeted reads a greeting with its own name and age in the answer.
pub proof fn greeting_reaches_the_named(greeting: Seq<char>, who: SayHelloRequestView)
    requires
        SayHelloRequest::fits(who),
        encode_utf8(hello(greeting, who.name, who.age)).len() <= u64::MAX,
    ensures
        call_outcome(
            greeting,
            TestServiceMethods::SayHello,
            SayHelloRequest::encoded(who),
        ) matches Ok(message) && decoded::<SayHelloResponse>(message) == Ok::<
            SayHelloResponseView,
            DecodeError,
        >(SayHelloResponseView { greeting: hello(greeting, who.name, who.age) }),
{
    SayHelloRequest::reads_back(who);
    SayHelloResponse::reads_back(
        SayHelloResponseView { greeting: hello(greeting, who.name, who.age) },
    );
}

/// A request whose message cannot be read is refused as a bad request, whatever its method.
pub proof fn unreadable_messages_are_refused(
    greeting: Seq<char>,
    method: TestServiceMethods,
    payload: Seq<u8>,
)
    requires
        match method {
            TestServiceMethods::SayHello => decoded::<SayHelloRequest>(payload) is Err,
            TestServiceMethods::Error => decoded::<()>(payload) is Err,
        },
    ensures
        call_outcome(greeting, method, payload) matches Err(status) && status.code.number() == 400
            && status == unreadable_status(),
{
}

/// The fields of a request for a greeting are read by their tags: `name` in field 1, `age` in field
/// 2. Each is set to the value that stands behind its key, whatever it was, and the others stay.
pub proof fn hello_request_fields_have_their_tags(
    m: SayHelloRequestView,
    name: Seq<char>,
    age: u32,
    rest: Seq<u8>,
)
    requires
        encode_utf8(name).len() <= u64::MAX,
    ensures
        merged::<SayHelloRequest>(
            m,
            seq![0x0Au8] + (varint(encode_utf8(name).len()) + encode_utf8(name)) + rest,
        ) == merged::<SayHelloRequest>(SayHelloRequestView { name, ..m }, rest),
        merged::<SayHelloRequest>(
            m,
            seq![0x10u8] + varint(age as nat) + rest,
        ) == merged::<SayHelloRequest>(SayHelloRequestView { age, ..m }, rest),
{
    assert(key(1, LENGTH_DELIMITED) =~= seq![0x0Au8]);
    lemma_read_string(name, rest);
    lemma_merged_step::<SayHelloRequest>(
        m,
        SayHelloRequestView { name, ..m },
        1,
        LENGTH_DELIMITED,
        varint(encode_utf8(name).len()) + encode_utf8(name),
        rest,
    );
    assert(key(2, VARINT) =~= seq![0x10u8]);
    lemma_read_uint32(age, rest);
    lemma_merged_step::<SayHelloRequest>(
        m,
        SayHelloRequestView { age, ..m },
        2,
        VARINT,
        varint(age as nat),
        rest,
    );
}

/// The bytes of a request for a greeting are its fields in the order of their tags, each behind its
/// key, and without those that have their default.
pub proof fn hello_request_bytes(m: SayHelloRequestView)
    ensures
        SayHelloRequest::encoded(m) == (if m.name.len() == 0 {
            seq![]
        } else {
            seq![0x0Au8] + (varint(encode_utf8(m.name).len()) + encode_utf8(m.name))
        }) + (if m.age == 0 {
            seq![]
        } else {
            seq![0x10u8] + varint(m.age as nat)
        }),
{
    assert(key(1, LENGTH_DELIMITED) =~= seq![0x0Au8]);
    assert(key(2, VARINT) =~= seq![0x10u8]);
}

/// What is read from the bytes of a request for a greeting has the values of all its fields.
pub proof fn hello_request_fields_read_back(message: SayHelloRequest)
    requires
        SayHelloRequest::fits(message@),
    ensures
        decoded::<SayHelloRequest>(SayHelloRequest::encoded(message@)) matches Ok(m) && {
            &&& m.name == message.name@
            &&& m.age == message.age
        },
{
    SayHelloRequest::reads_back(message@);
}

/// A request for a greeting of which no field has been read has zeros and empty values.
pub proof fn hello_request_fields_default()
    ensures
        decoded::<SayHelloRequest>(seq![]) matches Ok(m) && {
            &&& m.name.len() == 0
            &&& m.age == 0
        },
{
}

/// A field of a request for a greeting whose value cannot be read has the whole refused, with an
/// error that is marked with that field.
pub proof fn hello_request_fields_are_refused(m: SayHelloRequestView, wire_type: u8, s: Seq<u8>)
    requires
        wire_type <= THIRTY_TWO_BIT,
    ensures
        read_string(wire_type, s) is None ==> merged::<SayHelloRequest>(m, key(1, wire_type) + s)
            == Err::<SayHelloRequestView, DecodeError>(
            located(string_error(wire_type, s), "SayHelloRequest"@, "name"@),
        ),
        read_uint32(wire_type, s) is None ==> merged::<SayHelloRequest>(m, key(2, wire_type) + s)
            == Err::<SayHelloRequestView, DecodeError>(
            located(uint32_error(wire_type, s), "SayHelloRequest"@, "age"@),
        ),
{
    if read_string(wire_type, s) is None {
        lemma_refused_field::<SayHelloRequest>(m, 1, wire_type, s);
    }
    if read_uint32(wire_type, s) is None {
        lemma_refused_field::<SayHelloRequest>(m, 2, wire_type, s);
    }
}

/// The fields of a greeting are read by their tags: `greeting` in field 1. It is set to the value
/// that stands behind its key, whatever it was.
pub proof fn hello_response_fields_have_their_tags(
    m: SayHelloResponseView,
    greeting: Seq<char>,
    rest: Seq<u8>,
)
    requires
        encode_utf8(greeting).len() <= u64::MAX,
    ensures
        merged::<SayHelloResponse>(
            m,
            seq![0x0Au8] + (varint(encode_utf8(greeting).len()) + encode_utf8(greeting)) + rest,
        ) == merged::<SayHelloResponse>(SayHelloResponseView { greeting }, rest),
{
    assert(key(1, LENGTH_DELIMITED) =~= seq![0x0Au8]);
    lemma_read_string(greeting, rest);
    lemma_merged_step::<SayHelloResponse>(
        m,
        SayHelloResponseView { greeting },
        1,
        LENGTH_DELIMITED,
        varint(encode_utf8(greeting).len()) + encode_utf8(greeting),
        rest,
    );
}

/// The bytes of a greeting are its fields in the order of their tags, each behind its key, and
/// without those that have their default.
pub proof fn hello_response_bytes(m: SayHelloResponseView)
    ensures
        SayHelloResponse::encoded(m) == (if m.greeting.len() == 0 {
            seq![]
        } else {
            seq![0x0Au8] + (varint(encode_utf8(m.greeting).len()) + encode_utf8(m.greeting))
        }),
{
    assert(key(1, LENGTH_DELIMITED) =~= seq![0x0Au8]);
}

/// What is read from the bytes of a greeting has the values of all its fields.
pub proof fn hello_response_fields_read_back(message: SayHelloResponse)
    requires
        SayHelloResponse::fits(message@),
    ensures
        decoded::<SayHelloResponse>(SayHelloResponse::encoded(message@)) matches Ok(m) && {
            &&& m.greeting == message.greeting@
        },
{
    SayHelloResponse::reads_back(message@);
}

/// A greeting of which no field has been read has zeros and empty values.
pub proof fn hello_response_fields_default()
    ensures
        decoded::<SayHelloResponse>(seq![]) matches Ok(m) && {
            &&& m.greeting.len() == 0
        },
{
}

/// A field of a greeting whose value cannot be read has the whole refused, with an error that is
/// marked with that field.
pub proof fn hello_response_fields_are_refused(m: SayHelloResponseView, wire_type: u8, s: Seq<u8>)
    requires
        wire_type <= THIRTY_TWO_BIT,
    ensures
        read_string(wire_type, s) is None ==> merged::<SayHelloResponse>(m, key(1, wire_type) + s)
            == Err::<SayHelloResponseView, DecodeError>(
            located(string_error(wire_type, s), "SayHelloResponse"@, "greeting"@),
        ),
{
    if read_string(wire_type, s) is None {
        lemma_refused_field::<SayHelloResponse>(m, 1, wire_type, s);
    }
}

/// The service has the methods 0 and 1, and no other.
pub proof fn the_service_has_two_methods(service: TestServiceImpl, method: MethodId)
    ensures
        service.serves(method) <==> method <= 1,
{
}

/// The text of a greeting is the words of the service, a space, the whole name, a comma and a
/// space, and digits that stand for the age, and nothing else.
pub proof fn a_greeting_names_whom_it_greets(greeting: Seq<char>, name: Seq<char>, age: u32)
    ensures
        ({
            let text = hello(greeting, name, age);
            let name_at = (greeting.len() + 1) as int;
            let age_at = (name_at + name.len() + 2) as int;
            &&& age_at < text.len()
            &&& text.subrange(0, greeting.len() as int) == greeting
            &&& text[name_at - 1] == ' '
            &&& text.subrange(name_at, (name_at + name.len()) as int) == name
            &&& text[age_at - 2] == ','
            &&& text[age_at - 1] == ' '
            &&& number_of(text.skip(age_at)) == age
            &&& text[age_at] == '0' ==> age == 0
            &&& forall|i: int| age_at <= i < text.len() ==> '0' <= #[trigger] text[i] <= '9'
        }),
{
    reveal_strlit(" ");
    reveal_strlit(", ");
    decimal_stands_for_the_number(age as nat);
    let text = hello(greeting, name, age);
    let digits = decimal(age as nat);
    let name_at = (greeting.len() + 1) as int;
    let age_at = (name_at + name.len() + 2) as int;
    assert(text.subrange(0, greeting.len() as int) =~= greeting);
    assert(text.subrange(name_at, (name_at + name.len()) as int) =~= name);
    assert(text.skip(age_at) =~= digits);
    assert forall|i: int| age_at <= i < text.len() implies '0' <= #[trigger] text[i] <= '9' by {
        assert(text[i] == digits[i - age_at]);
    }
    assert(text[age_at] == digits[0]);
}

/// The method that fails refuses every request: as not implemented, or as a bad request where its
/// message cannot be read.
pub proof fn the_failing_method_fails(greeting: Seq<char>, payload: Seq<u8>)
    ensures
        call_outcome(greeting, TestServiceMethods::Error, payload) matches Err(status) && {
            &&& decoded::<()>(payload) is Ok ==> status.code.number() == 404 && status.details
                == "error method is not implemented"@
            &&& decoded::<()>(payload) is Err ==> status.code.number() == 400 && status.details
                == "Failed to decode request"@
        },
{
}

/// A peer that asks for a greeting gets a response with the number of its request, from which it
/// reads the words of the service, its whole name and its age.
pub proof fn a_peer_is_greeted(
    rpc: Rpc<TestServiceImpl>,
    request_id: RequestId,
    who: SayHelloRequest,
    reply: Result<RpcResponse, RpcError>,
)
    requires
        SayHelloRequest::fits(who@),
        SayHelloRequest::encoded(who@).len() <= u64::MAX,
        encode_utf8(
            rpc.service.greeting@ + " "@ + who.name@ + ", "@ + decimal(who.age as nat),
        ).len() <= u64::MAX,
        rpc.handles(
            RpcRequest::encoded(
                RpcRequestView {
                    request_id,
                    method: 0,
                    message: SayHelloRequest::encoded(who@),
                },
            ),
            reply,
        ),
    ensures
        reply matches Ok(response) && {
            &&& response.request_id == request_id
            &&& response.method == 0
            &&& response.status == 200
            &&& response.error@.len() == 0
            &&& decoded::<SayHelloResponse>(response.message@) matches Ok(said) && said.greeting
                == rpc.service.greeting@ + " "@ + who.name@ + ", "@ + decimal(who.age as nat)
        },
{
    let request = RpcRequestView {
        request_id,
        method: 0,
        message: SayHelloRequest::encoded(who@),
    };
    RpcRequest::reads_back(request);
    method_numbers(0);
    greeting_reaches_the_named(rpc.service.greeting@, who@);
}

/// A peer whose request is refused gets a response with the number and the method of its request,
/// the number and the text of the reason, and no message.
pub proof fn a_peer_is_refused(
    rpc: Rpc<TestServiceImpl>,
    request: RpcRequest,
    reply: Result<RpcResponse, RpcError>,
)
    requires
        RpcRequest::fits(request@),
        rpc.handles(RpcRequest::encoded(request@), reply),
        request.method == 0 ==> decoded::<SayHelloRequest>(request.message@) is Err,
    ensures
        reply matches Ok(response) && {
            &&& request.method <= 1
            &&& response.request_id == request.request_id
            &&& response.method == request.method
            &&& response.message@.len() == 0
            &&& if request.method == 0 || decoded::<()>(request.message@) is Err {
                response.status == 400 && response.error@ == "Failed to decode request"@
            } else {
                response.status == 404 && response.error@ == "error method is not implemented"@
            }
        },
{
    RpcRequest::reads_back(request@);
    method_numbers(request.method);
}

/// A field that a request for a greeting, or a greeting, does not have makes no difference to it,
/// where it can be skipped.
pub proof fn greetings_ignore_unknown_fields(
    request: SayHelloRequestView,
    response: SayHelloResponseView,
    tag: u32,
    wire_type: u8,
    value: Seq<u8>,
    rest: Seq<u8>,
)
    requires
        1 <= tag <= MAX_TAG,
        wire_type <= THIRTY_TWO_BIT,
        unknown_len(tag, wire_type, value + rest) == Some(value.len()),
    ensures
        tag > 2 ==> merged::<SayHelloRequest>(request, key(tag, wire_type) + value + rest)
            == merged::<SayHelloRequest>(request, rest),
        tag > 1 ==> merged::<SayHelloResponse>(response, key(tag, wire_type) + value + rest)
            == merged::<SayHelloResponse>(response, rest),
{
    if tag > 2 {
        lemma_merged_step::<SayHelloRequest>(request, request, tag, wire_type, value, rest);
    }
    if tag > 1 {
        lemma_merged_step::<SayHelloResponse>(response, response, tag, wire_type, value, rest);
    }
}

/// A field that a request for a greeting, or a greeting, does not have, and that cannot be skipped,
/// has it refused.
pub proof fn unknown_greeting_fields_are_refused(
    request: SayHelloRequestView,
    response: SayHelloResponseView,
    tag: u32,
    wire_type: u8,
    s: Seq<u8>,
)
    requires
        1 <= tag <= MAX_TAG,
        wire_type <= THIRTY_TWO_BIT,
        unknown_len(tag, wire_type, s) is None,
    ensures
        tag > 2 ==> merged::<SayHelloRequest>(request, key(tag, wire_type) + s)
            == Err::<SayHelloRequestView, DecodeError>(skip_error(tag, wire_type, s)),
        tag > 1 ==> merged::<SayHelloResponse>(response, key(tag, wire_type) + s)
            == Err::<SayHelloResponseView, DecodeError>(skip_error(tag, wire_type, s)),
{
    if tag > 2 {
        lemma_refused_field::<SayHelloRequest>(request, tag, wire_type, s);
    }
    if tag > 1 {
        lemma_refused_field::<SayHelloResponse>(response, tag, wire_type, s);
    }
}

} // verus!
