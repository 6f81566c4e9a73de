//! How the operations fit together.
//!
//! Each law speaks of whatever the operations return, one after the other: `call_ensures` says that
//! an operation may return a value for some arguments.

use bytes::Bytes;
use prost::DecodeError;
use vstd::prelude::*;
use vstd::utf8::encode_utf8;

use crate::block::{Block, BlockHeaderAccumulatedData, ChainBlock, HashOutput, HistoricalBlock};
use crate::error::RpcError;
use crate::message::{decode, WireMessage};
use crate::proto::{RpcRequest, RpcResponse};
use crate::rpc::{
    MethodId, NodeId, RawRequest, RawRequestView, RawResponse, Request, RequestId, Response, Rpc,
    RpcAction, RpcEvent, RpcService, ToEnum,
};
use crate::service::{
    a_greeting_names_whom_it_greets, greeting_reaches_the_named, method_numbers, SayHelloRequest,
    SayHelloResponse, TestService, TestServiceImpl, TestServiceMethods,
};
use crate::status::{RpcStatus, RpcStatusCode, RpcStatusView};
use crate::text::{decimal, number_of};
use crate::wire::contents;

verus! {

/// A historical block gives back the block, the confirmations and the accumulated data that it was
/// made of, whichever way they are asked for.
pub proof fn records_give_back_what_they_hold<C, T>(
    block: Block<C>,
    confirmations: u64,
    data: BlockHeaderAccumulatedData<T>,
    record: HistoricalBlock<C, T>,
    told: u64,
    shown: &Block<C>,
    hash: &HashOutput,
    taken: Block<C>,
    turned: Block<C>,
    chained: ChainBlock<C, T>,
)
    requires
        call_ensures(HistoricalBlock::<C, T>::new, (block, confirmations, data), record),
        call_ensures(HistoricalBlock::<C, T>::confirmations, (&record,), told),
        call_ensures(HistoricalBlock::<C, T>::block, (&record,), shown),
        call_ensures(HistoricalBlock::<C, T>::hash, (&record,), hash),
        call_ensures(HistoricalBlock::<C, T>::into_block, (record,), taken),
        call_ensures(<Block<C> as From<HistoricalBlock<C, T>>>::from, (record,), turned),
        call_ensures(HistoricalBlock::<C, T>::into_chain_block, (record,), chained),
    ensures
        told == confirmations,
        *shown == block,
        *hash == data.hash,
        taken == block,
        turned == block,
        chained.block == block,
        chained.accumulated_data == data,
{
}

/// A status that was made for a reason tells the number of that reason, and the whole of the
/// details that it was made with.
pub proof fn statuses_tell_what_they_were_made_of(
    details: String,
    ok: RpcStatus,
    invalid: RpcStatus,
    missing: RpcStatus,
    bad: RpcStatus,
    general: RpcStatus,
    status: RpcStatus,
    number: u32,
    text: String,
)
    requires
        call_ensures(RpcStatus::ok, (), ok),
        call_ensures(RpcStatus::invalid_method, (details,), invalid),
        call_ensures(RpcStatus::not_implemented, (details,), missing),
        call_ensures(RpcStatus::bad_request, (details,), bad),
        call_ensures(RpcStatus::general, (details,), general),
        call_ensures(RpcStatus::as_code, (&status,), number),
        call_ensures(RpcStatus::to_string, (&status,), text),
    ensures
        status == ok ==> number == 200 && text@.len() == 0,
        status == invalid ==> number == 300 && text@ == details@,
        status == bad ==> number == 400 && text@ == details@,
        status == missing ==> number == 404 && text@ == details@,
        status == general ==> number == 500 && text@ == details@,
{
}

/// An error is told with the number 400 exactly if it came of decoding, and with 500 else, and
/// never with its own text.
pub proof fn errors_are_told_as_statuses(
    err: RpcError,
    status: RpcStatus,
    number: u32,
    text: String,
)
    requires
        call_ensures(<RpcStatus as From<RpcError>>::from, (err,), status),
        call_ensures(RpcStatus::as_code, (&status,), number),
        call_ensures(RpcStatus::to_string, (&status,), text),
    ensures
        number == if err is DecodeError {
            400u32
        } else {
            500u32
        },
        text@ == if err is DecodeError {
            "Failed to decode request"@
        } else {
            "Request failed"@
        },
{
}

/// An error of decoding is kept as it is.
pub proof fn decode_errors_are_kept(err: DecodeError, kept: RpcError)
    requires
        call_ensures(<RpcError as From<DecodeError>>::from, (err,), kept),
    ensures
        kept == RpcError::DecodeError(err),
{
}

/// The clone of an identity is the same identity.
pub proof fn identities_are_cloned_whole(id: NodeId, copy: NodeId)
    requires
        call_ensures(<NodeId as Clone>::clone, (&id,), copy),
    ensures
        copy.bytes@ == id.bytes@,
{
}

/// A message that was written is what is read from its bytes.
pub proof fn written_messages_are_read<T: WireMessage>(
    message: T,
    bytes: Vec<u8>,
    buf: Bytes,
    read: Result<T, DecodeError>,
)
    requires
        call_ensures(<T as WireMessage>::to_encoded_bytes, (&message,), bytes),
        contents(buf) == bytes@,
        call_ensures(decode::<T>, (buf,), read),
    ensures
        read matches Ok(found) && found@ == message@,
{
    T::reads_back(message@);
}

/// A request whose message is the bytes of an answer reads as a request with the message of that
/// answer, and with its own number and peer.
pub proof fn answers_are_read_from_their_bytes<T: WireMessage>(
    message: T,
    answer: Response<T>,
    written: RawResponse,
    raw: RawRequest,
    read: Result<Request<T>, RpcError>,
)
    requires
        call_ensures(Response::<T>::new, (message,), answer),
        call_ensures(Response::<T>::encode, (&answer,), written),
        contents(raw.payload) == contents(written.payload),
        call_ensures(RawRequest::decode::<T>, (raw,), read),
    ensures
        read matches Ok(request) && {
            &&& request.message@ == message@
            &&& request.request_id == raw.request_id
            &&& request.peer == raw.peer
        },
{
}

/// A request is read exactly if its message is, whatever else it says, and fails with the error of
/// reading its message.
pub proof fn requests_are_read_as_their_messages<T: WireMessage>(
    raw: RawRequest,
    buf: Bytes,
    message: Result<T, DecodeError>,
    read: Result<Request<T>, RpcError>,
)
    requires
        contents(buf) == contents(raw.payload),
        call_ensures(decode::<T>, (buf,), message),
        call_ensures(RawRequest::decode::<T>, (raw,), read),
    ensures
        match message {
            Ok(m) => read matches Ok(request) && request.message@ == m@,
            Err(err) => read == Err::<Request<T>, RpcError>(RpcError::DecodeError(err)),
        },
{
}

/// A number is read as the method that has it: 0 as the greeting, 1 as the one that fails, and no
/// other as a method.
pub proof fn methods_are_found_by_their_numbers(
    raw: RawRequest,
    method: Option<TestServiceMethods>,
    found: Option<TestServiceMethods>,
)
    requires
        call_ensures(RawRequest::method::<TestServiceMethods>, (&raw,), method),
        call_ensures(<TestServiceMethods as ToEnum>::from_value, (raw.method,), found),
    ensures
        method == Some(TestServiceMethods::SayHello) <==> raw.method == 0,
        method == Some(TestServiceMethods::Error) <==> raw.method == 1,
        method is None <==> raw.method > 1,
        found == method,
{
    method_numbers(raw.method);
}

/// Every message that the connection delivers is handed over to be handled, whole.
pub proof fn every_message_is_handled<TService>(
    rpc: Rpc<TService>,
    msg: Bytes,
    action: RpcAction,
)
    requires
        call_ensures(
            Rpc::<TService>::next_action,
            (&rpc, RpcEvent::Message(Ok(msg))),
            action,
        ),
    ensures
        action matches RpcAction::Handle(given) && contents(given) == contents(msg),
{
}

/// Every reply is sent, and is read as the whole of itself from what was sent.
pub proof fn every_reply_is_sent<TService>(
    rpc: Rpc<TService>,
    reply: RpcResponse,
    action: RpcAction,
    read: Result<RpcResponse, DecodeError>,
)
    requires
        call_ensures(Rpc::<TService>::next_action, (&rpc, RpcEvent::Reply(Ok(reply))), action)
            || call_ensures(Rpc::<TService>::handle_reply, (&rpc, Ok(reply)), action),
        action matches RpcAction::Send(frame) ==> call_ensures(
            decode::<RpcResponse>,
            (frame,),
            read,
        ),
    ensures
        action is Send,
        read matches Ok(response) && {
            &&& response.request_id == reply.request_id
            &&& response.method == reply.method
            &&& response.status == reply.status
            &&& response.error@ == reply.error@
            &&& response.message@ == reply.message@
        },
{
}

/// A handling that failed has the connection closed for sending; a failure of the connection stops
/// the serving with its error; a write that succeeded calls for nothing.
pub proof fn failures_have_their_actions<TService>(
    rpc: Rpc<TService>,
    err: RpcError,
    replied: RpcAction,
    handled: RpcAction,
    read: RpcAction,
    wrote: RpcAction,
    done: RpcAction,
)
    requires
        call_ensures(Rpc::<TService>::next_action, (&rpc, RpcEvent::Reply(Err(err))), replied),
        call_ensures(Rpc::<TService>::handle_reply, (&rpc, Err(err)), handled),
        call_ensures(Rpc::<TService>::next_action, (&rpc, RpcEvent::Message(Err(err))), read),
        call_ensures(Rpc::<TService>::next_action, (&rpc, RpcEvent::Written(Err(err))), wrote),
        call_ensures(Rpc::<TService>::next_action, (&rpc, RpcEvent::Written(Ok(()))), done),
    ensures
        replied is Close,
        handled is Close,
        read == RpcAction::Stop(err),
        wrote == RpcAction::Stop(err),
        done is Wait,
{
}

/// A connection starts with the service and the peer that it was made with, and its first request
/// has the number 0.
pub proof fn connections_start_at_zero<TService>(
    service: TService,
    peer: NodeId,
    rpc: Rpc<TService>,
    connection: &mut Rpc<TService>,
    first: u32,
)
    requires
        call_ensures(Rpc::<TService>::new, (service, peer), rpc),
        *old(connection) == rpc,
        call_ensures(Rpc::<TService>::next_request_id, (connection,), first),
    ensures
        rpc.service == service,
        rpc.peer == peer,
        first == 0,
{
}

/// Of two requests, one right after the other, the second has the number that is greater by one, or
/// 0 where the first has the greatest. The connection keeps its service and its peer.
pub proof fn request_numbers_go_up_by_one<TService>(
    connection: &mut Rpc<TService>,
    later: &mut Rpc<TService>,
    first: u32,
    second: u32,
)
    requires
        call_ensures(Rpc::<TService>::next_request_id, (connection,), first),
        *old(later) == *final(connection),
        call_ensures(Rpc::<TService>::next_request_id, (later,), second),
    ensures
        first < u32::MAX ==> second == first + 1,
        first == u32::MAX ==> second == 0,
        final(later).service == old(connection).service,
        final(later).peer == old(connection).peer,
{
}

/// A request that a peer writes is read with its number, its method and its whole message, and with
/// the identity of the peer.
pub proof fn requests_are_read_as_written<TService>(
    rpc: Rpc<TService>,
    request: RpcRequest,
    bytes: Vec<u8>,
    msg: Bytes,
    read: Result<RawRequest, RpcError>,
)
    requires
        call_ensures(<RpcRequest as WireMessage>::to_encoded_bytes, (&request,), bytes),
        contents(msg) == bytes@,
        call_ensures(Rpc::<TService>::read_request, (&rpc, msg), read),
    ensures
        read matches Ok(raw) && {
            &&& raw.request_id == request.request_id
            &&& raw.method == request.method
            &&& contents(raw.payload) == request.message@
            &&& raw.peer.bytes@ == rpc.peer.bytes@
        },
{
    RpcRequest::reads_back(request@);
}

/// A message that cannot be read gives the error of reading it, and no response.
pub proof fn unreadable_requests_have_their_error<TService: RpcService>(
    rpc: Rpc<TService>,
    msg: Bytes,
    err: DecodeError,
    read: Result<RawRequest, RpcError>,
    handled: Result<RpcResponse, RpcError>,
)
    requires
        call_ensures(decode::<RpcRequest>, (msg,), Err(err)),
        call_ensures(Rpc::<TService>::read_request, (&rpc, msg), read),
        call_ensures(Rpc::<TService>::handle_message, (&rpc, msg), handled),
    ensures
        read == Err::<RawRequest, RpcError>(RpcError::DecodeError(err)),
        handled == Err::<RpcResponse, RpcError>(RpcError::DecodeError(err)),
{
}

/// A response has the number and the method of its request, and the whole of the answer with the
/// number of success, or the number and the text of the status of a refusal.
pub proof fn responses_hold_what_was_made<TService>(
    request_id: RequestId,
    method: MethodId,
    made: Result<RawResponse, RpcStatus>,
    response: RpcResponse,
    status: RpcStatus,
    number: u32,
    text: String,
)
    requires
        call_ensures(Rpc::<TService>::respond, (request_id, method, made), response),
        call_ensures(RpcStatus::as_code, (&status,), number),
        call_ensures(RpcStatus::to_string, (&status,), text),
    ensures
        response.request_id == request_id,
        response.method == method,
        made matches Ok(answer) ==> response.status == 200 && response.error@.len() == 0
            && response.message@ == contents(answer.payload),
        made == Err::<RawResponse, RpcStatus>(status) ==> response.status == number
            && response.error@ == text@ && response.message@.len() == 0,
{
}

/// A request that the service is given is answered with its number and its method, and with what
/// the service made of just that request.
pub proof fn requests_are_answered_by_the_service<TService: RpcService>(
    rpc: Rpc<TService>,
    raw: RawRequest,
    response: RpcResponse,
)
    requires
        call_ensures(Rpc::<TService>::answer, (&rpc, raw), response),
    ensures
        response.request_id == raw.request_id,
        response.method == raw.method,
        exists|made: Result<Seq<u8>, RpcStatusView>| #[trigger]
            rpc.service.answers(
                RawRequestView {
                    request_id: raw.request_id,
                    method: raw.method,
                    payload: contents(raw.payload),
                    peer: raw.peer.bytes@,
                },
                made,
            ) && match made {
                Ok(answer) => response.status == 200 && response.error@.len() == 0
                    && response.message@ == answer,
                Err(status) => response.status == status.code.number() && response.error@
                    == status.details && response.message@.len() == 0,
            },
{
}

/// The service answers a request for a greeting with its words, a space, the whole name, a comma
/// and a space, and digits that stand for the age.
pub proof fn the_service_greets_by_name_and_age(
    service: TestServiceImpl,
    request: Request<SayHelloRequest>,
    made: Result<Response<SayHelloResponse>, RpcStatus>,
)
    requires
        call_ensures(<TestServiceImpl as TestService>::say_hello, (&service, request), made),
    ensures
        made matches Ok(response) && {
            let text = response.message.greeting@;
            let name_at = (service.greeting@.len() + 1) as int;
            let age_at = (name_at + request.message.name@.len() + 2) as int;
            &&& age_at < text.len()
            &&& text.subrange(0, name_at - 1) == service.greeting@
            &&& text[name_at - 1] == ' '
            &&& text.subrange(name_at, age_at - 2) == request.message.name@
            &&& text[age_at - 2] == ','
            &&& text[age_at - 1] == ' '
            &&& number_of(text.skip(age_at)) == request.message.age
            &&& text[age_at] == '0' ==> request.message.age == 0
            &&& forall|i: int| age_at <= i < text.len() ==> '0' <= #[trigger] text[i] <= '9'
        },
{
    a_greeting_names_whom_it_greets(
        service.greeting@,
        request.message.name@,
        request.message.age,
    );
}

/// The method that fails fails whatever is asked, and says that it is not implemented.
pub proof fn the_failing_method_is_not_implemented(
    service: TestServiceImpl,
    request: Request<()>,
    made: Result<Response<()>, RpcStatus>,
    status: RpcStatus,
    number: u32,
    text: String,
)
    requires
        call_ensures(<TestServiceImpl as TestService>::error, (&service, request), made),
        made == Err::<Response<()>, RpcStatus>(status) ==> call_ensures(
            RpcStatus::as_code,
            (&status,),
            number,
        ) && call_ensures(RpcStatus::to_string, (&status,), text),
    ensures
        made is Err,
        made == Err::<Response<()>, RpcStatus>(status) ==> number == 404 && text@
            == "error method is not implemented"@,
{
}

/// A call with the bytes of a request for a greeting is answered with the bytes of what the service
/// says to that request.
pub proof fn calls_are_answered_as_said(
    service: TestServiceImpl,
    who: SayHelloRequest,
    bytes: Vec<u8>,
    raw: RawRequest,
    request: Request<SayHelloRequest>,
    said: Result<Response<SayHelloResponse>, RpcStatus>,
    made: Result<RawResponse, RpcStatus>,
    read: Result<SayHelloResponse, DecodeError>,
)
    requires
        call_ensures(<SayHelloRequest as WireMessage>::to_encoded_bytes, (&who,), bytes),
        raw.method == 0,
        contents(raw.payload) == bytes@,
        request.message == who,
        call_ensures(<TestServiceImpl as TestService>::say_hello, (&service, request), said),
        call_ensures(<TestServiceImpl as RpcService>::call, (&service, raw), made),
        made matches Ok(answer) ==> call_ensures(
            decode::<SayHelloResponse>,
            (answer.payload,),
            read,
        ),
    ensures
        made is Ok,
        said matches Ok(response) && read matches Ok(greeting) && greeting.greeting@
            == response.message.greeting@,
{
    SayHelloRequest::reads_back(who@);
    method_numbers(0);
}

/// A call of the method that fails, or with a message that cannot be read, is refused, and tells
/// which of the two it was.
pub proof fn calls_are_refused(
    service: TestServiceImpl,
    raw: RawRequest,
    asked: Result<SayHelloRequest, DecodeError>,
    nothing: Result<(), DecodeError>,
    made: Result<RawResponse, RpcStatus>,
)
    requires
        raw.method <= 1,
        call_ensures(decode::<SayHelloRequest>, (raw.payload,), asked),
        call_ensures(decode::<()>, (raw.payload,), nothing),
        call_ensures(<TestServiceImpl as RpcService>::call, (&service, raw), made),
    ensures
        made is Ok <==> raw.method == 0 && asked is Ok,
        made matches Err(status) ==> if raw.method == 1 && nothing is Ok {
            status.code == RpcStatusCode::NotImplemented && status.details@
                == "error method is not implemented"@
        } else {
            status.code == RpcStatusCode::BadRequest && status.details@
                == "Failed to decode request"@
        },
{
    method_numbers(raw.method);
}

/// A peer that writes a request for a greeting, and reads what is sent for it, reads a response
/// with the number of its request and a greeting with its name and age.
pub proof fn a_peer_reads_its_greeting(
    rpc: Rpc<TestServiceImpl>,
    who: SayHelloRequest,
    payload: Vec<u8>,
    request: RpcRequest,
    bytes: Vec<u8>,
    msg: Bytes,
    reply: Result<RpcResponse, RpcError>,
    action: RpcAction,
    response: RpcResponse,
    answer: Bytes,
    said: Result<SayHelloResponse, DecodeError>,
)
    requires
        call_ensures(<SayHelloRequest as WireMessage>::to_encoded_bytes, (&who,), payload),
        request.method == 0,
        request.message@ == payload@,
        call_ensures(<RpcRequest as WireMessage>::to_encoded_bytes, (&request,), bytes),
        contents(msg) == bytes@,
        call_ensures(Rpc::<TestServiceImpl>::handle_message, (&rpc, msg), reply),
        call_ensures(
            Rpc::<TestServiceImpl>::next_action,
            (&rpc, RpcEvent::Reply(reply)),
            action,
        ),
        action matches RpcAction::Send(frame) && call_ensures(
            decode::<RpcResponse>,
            (frame,),
            Ok(response),
        ),
        contents(answer) == response.message@,
        call_ensures(decode::<SayHelloResponse>, (answer,), said),
        encode_utf8(
            rpc.service.greeting@ + " "@ + who.name@ + ", "@ + decimal(who.age as nat),
        ).len() <= u64::MAX,
    ensures
        response.request_id == request.request_id,
        response.method == 0,
        response.status == 200,
        response.error@.len() == 0,
        said matches Ok(greeting) && greeting.greeting@ == rpc.service.greeting@ + " "@ + who.name@
            + ", "@ + decimal(who.age as nat),
{
    SayHelloRequest::reads_back(who@);
    RpcRequest::reads_back(request@);
    method_numbers(0);
    greeting_reaches_the_named(rpc.service.greeting@, who@);
}

/// A message is handled exactly as it would be without asking first whether the service has the
/// method, and is left alone where it has not.
pub proof fn messages_are_tried_first(
    rpc: Rpc<TestServiceImpl>,
    msg: Bytes,
    request: Result<RawRequest, RpcError>,
    tried: Option<Result<RpcResponse, RpcError>>,
    handled: Result<RpcResponse, RpcError>,
)
    requires
        call_ensures(Rpc::<TestServiceImpl>::read_request, (&rpc, msg), request),
        call_ensures(Rpc::<TestServiceImpl>::try_handle_message, (&rpc, msg), tried),
        call_ensures(Rpc::<TestServiceImpl>::handle_message, (&rpc, msg), handled),
    ensures
        tried is None <==> (request matches Ok(raw) && raw.method > 1),
        tried matches Some(Ok(response)) ==> handled matches Ok(other) && response@ == other@,
        tried matches Some(Err(err)) ==> handled == Err::<RpcResponse, RpcError>(err),
{
    if let Ok(raw) = request {
        method_numbers(raw.method);
    }
}

} // verus!
