//! Serving requests over a connection.

use bytes::Bytes;
use prost::DecodeError;
use vstd::prelude::*;

use crate::error::RpcError;
use crate::message::{decode, decoded, WireFormat, WireMessage};
use crate::proto::{RpcRequest, RpcRequestView, RpcResponse, RpcResponseView};
use crate::status::{RpcStatus, RpcStatusCode, RpcStatusView};
use crate::wire::{bytes_from_vec, bytes_to_vec, contents};

verus! {

/// Tells a request of a peer from its others.
pub type RequestId = u32;

/// The number of a method of a service.
pub type MethodId = u32;

/// The identity of a node.
#[derive(Debug, PartialEq, Eq, Hash)]
pub struct NodeId {
    pub bytes: Vec<u8>,
}

impl View for NodeId {
    type V = Seq<u8>;

    open spec fn view(&self) -> Seq<u8> {
        self.bytes@
    }
}

impl Clone for NodeId {
    fn clone(&self) -> (res: NodeId)
        ensures
            res@ == self@,
            res.bytes@ == self.bytes@,
    {
        NodeId { bytes: self.bytes.clone() }
    }
}

/// An enumeration whose variants can be listed, in the order of their declaration.
pub trait EnumVariants: Sized {
    /// Every variant, in the order of declaration.
    spec fn all_variants() -> Seq<Self>;

    /// No variant is listed twice, and none is left out.
    proof fn lists_each_once()
        ensures
            Self::all_variants().no_duplicates(),
            forall|v: Self| #[trigger] Self::all_variants().contains(v),
    ;

    /// Every variant, in the order of declaration.
    fn variants() -> (res: Vec<Self>)
        ensures
            res@ == Self::all_variants(),
    ;
}

/// An enumeration whose variants are numbered from 0.
pub trait ToEnum: Sized {
    /// The variant with the given number, if there is one.
    spec fn variant(value: u32) -> Option<Self>;

    /// The variant with the given number, if there is one.
    fn from_value(value: u32) -> (res: Option<Self>)
        ensures
            res == Self::variant(value),
    ;
}

impl<T: EnumVariants> ToEnum for T {
    open spec fn variant(value: u32) -> Option<T> {
        if value < T::all_variants().len() {
            Some(T::all_variants()[value as int])
        } else {
            None
        }
    }

    fn from_value(value: u32) -> (res: Option<T>) {
        let mut variants = T::variants();
        let n: usize = value as usize;
        if n < variants.len() {
            Some(variants.swap_remove(n))
        } else {
            None
        }
    }
}

/// No two numbers stand for the same variant.
pub proof fn variant_numbers_differ<T: EnumVariants>(a: u32, b: u32)
    requires
        T::variant(a) is Some,
        T::variant(a) == T::variant(b),
    ensures
        a == b,
{
    T::lists_each_once();
}

/// Every variant has a number, in an enumeration with no more variants than there are numbers.
pub proof fn every_variant_has_a_number<T: EnumVariants>(v: T)
    requires
        T::all_variants().len() <= 0x1_0000_0000,
    ensures
        exists|value: u32| #[trigger] T::variant(value) == Some(v),
{
    T::lists_each_once();
    assert(T::all_variants().contains(v));
    let i = choose|i: int| 0 <= i < T::all_variants().len() && T::all_variants()[i] == v;
    assert(T::variant(i as u32) == Some(v));
}

/// A request, with its message read.
pub struct Request<T> {
    pub request_id: RequestId,
    pub message: T,
    pub peer: NodeId,
}

/// The answer to a request.
pub struct Response<T> {
    pub message: T,
}

impl<T: WireMessage> Response<T> {
    pub fn new(message: T) -> (res: Response<T>)
        ensures
            res.message == message,
    {
        Response { message }
    }

    /// The answer, with its message as bytes, which read as that message.
    pub fn encode(&self) -> (res: RawResponse)
        ensures
            res@ == T::encoded(self.message@),
            contents(res.payload) == T::encoded(self.message@),
            T::fits(self.message@),
            decoded::<T>(res@) == Ok::<T::V, DecodeError>(self.message@),
    {
        let bytes = self.message.to_encoded_bytes();
        proof {
            T::reads_back(self.message@);
        }
        RawResponse { payload: bytes_from_vec(bytes) }
    }
}

/// A request, with its message as bytes.
pub struct RawRequest {
    pub request_id: RequestId,
    pub method: MethodId,
    pub payload: Bytes,
    pub peer: NodeId,
}

/// A request: its message as bytes, and the bytes of the identity of the peer.
#[verifier::ext_equal]
pub struct RawRequestView {
    pub request_id: RequestId,
    pub method: MethodId,
    pub payload: Seq<u8>,
    pub peer: Seq<u8>,
}

impl View for RawRequest {
    type V = RawRequestView;

    open spec fn view(&self) -> RawRequestView {
        RawRequestView {
            request_id: self.request_id,
            method: self.method,
            payload: contents(self.payload),
            peer: self.peer@,
        }
    }
}

impl RawRequest {
    /// Reads the message of the request.
    pub fn decode<T: WireMessage>(self) -> (res: Result<Request<T>, RpcError>)
        ensures
            match decoded::<T>(contents(self.payload)) {
                Ok(m) => {
                    &&& res matches Ok(request)
                    &&& request.request_id == self.request_id
                    &&& request.message@ == m
                    &&& request.peer == self.peer
                },
                Err(err) => res == Err::<Request<T>, RpcError>(RpcError::DecodeError(err)),
            },
    {
        match decode::<T>(self.payload) {
            Ok(message) => Ok(Request { request_id: self.request_id, message, peer: self.peer }),
            Err(err) => Err(RpcError::from(err)),
        }
    }

    /// The method that the request is for, if there is one with its number.
    pub fn method<T: ToEnum>(&self) -> (res: Option<T>)
        ensures
            res == T::variant(self.method),
    {
        T::from_value(self.method)
    }
}

/// The answer to a request, with its message as bytes.
pub struct RawResponse {
    pub payload: Bytes,
}

impl View for RawResponse {
    type V = Seq<u8>;

    open spec fn view(&self) -> Seq<u8> {
        contents(self.payload)
    }
}

/// What a service made of a request: the bytes of its answer, or the status in place of one.
pub open spec fn outcome(res: Result<RawResponse, RpcStatus>) -> Result<Seq<u8>, RpcStatusView> {
    match res {
        Ok(response) => Ok(response@),
        Err(status) => Err(status@),
    }
}

/// Something that answers requests.
pub trait RpcService: Send + Sync + 'static {
    /// Whether the service has a method with the given number. It answers no other.
    spec fn serves(&self, method: MethodId) -> bool;

    /// Whether the service may make `outcome` of the request.
    spec fn answers(
        &self,
        request: RawRequestView,
        outcome: Result<Seq<u8>, RpcStatusView>,
    ) -> bool;

    /// Answers a request.
    fn call(&self, req: RawRequest) -> (res: Result<RawResponse, RpcStatus>)
        requires
            self.serves(req.method),
        ensures
            self.answers(req@, outcome(res)),
    ;
}

/// The request that a message holds, as the service is handed it.
pub open spec fn request_of(message: RpcRequestView, peer: Seq<u8>) -> RawRequestView {
    RawRequestView {
        request_id: message.request_id,
        method: message.method,
        payload: message.message,
        peer,
    }
}

/// The response to the request `request_id` for the method `method`, by what the service made of
/// it.
pub open spec fn response_to(
    request_id: RequestId,
    method: MethodId,
    outcome: Result<Seq<u8>, RpcStatusView>,
) -> RpcResponseView {
    match outcome {
        Ok(message) => RpcResponseView {
            request_id,
            method,
            status: RpcStatusCode::Success.number(),
            error: seq![],
            message,
        },
        Err(status) => RpcResponseView {
            request_id,
            method,
            status: status.code.number(),
            error: status.details,
            message: seq![],
        },
    }
}

/// What has happened on a connection.
pub enum RpcEvent {
    /// The peer sent a message, or the connection failed to deliver one.
    Message(Result<Bytes, RpcError>),
    /// The handling of a message has ended, with a response or without.
    Reply(Result<RpcResponse, RpcError>),
    /// What was to be sent has been sent, or the connection has been closed, or that failed.
    Written(Result<(), RpcError>),
}

/// What is to be done on a connection.
pub enum RpcAction {
    /// Handle a message, beside others that are being handled.
    Handle(Bytes),
    /// Send a message to the peer.
    Send(Bytes),
    /// Close the connection for sending.
    Close,
    /// Wait for what happens next.
    Wait,
    /// Stop serving the connection.
    Stop(RpcError),
}

/// Whether `action` is what to do about the end of the handling of a message: send the bytes of the
/// response, which read as that response, or, where there is none, close the connection for
/// sending.
pub open spec fn follows_reply(
    reply_result: Result<RpcResponse, RpcError>,
    action: RpcAction,
) -> bool {
    match reply_result {
        Ok(reply) => action matches RpcAction::Send(frame) && {
            &&& contents(frame) == RpcResponse::encoded(reply@)
            &&& decoded::<RpcResponse>(contents(frame)) == Ok::<RpcResponseView, DecodeError>(
                reply@,
            )
        },
        Err(_) => action == RpcAction::Close,
    }
}

/// Whether `action` is what to do about `event`.
pub open spec fn follows(event: RpcEvent, action: RpcAction) -> bool {
    match event {
        RpcEvent::Message(Ok(msg)) => action == RpcAction::Handle(msg),
        RpcEvent::Message(Err(err)) => action == RpcAction::Stop(err),
        RpcEvent::Reply(reply_result) => follows_reply(reply_result, action),
        RpcEvent::Written(Ok(())) => action == RpcAction::Wait,
        RpcEvent::Written(Err(err)) => action == RpcAction::Stop(err),
    }
}

/// A connection to a peer whose requests a service answers.
pub struct Rpc<TService> {
    pub service: TService,
    pub request_id: RequestId,
    pub peer: NodeId,
}

impl<TService> Rpc<TService> {
    pub fn new(service: TService, peer: NodeId) -> (res: Rpc<TService>)
        ensures
            res.service == service,
            res.request_id == 0,
            res.peer == peer,
    {
        Rpc { service, request_id: 0, peer }
    }

    /// What to do about an event. Serving stops where the connection fails, and only there; a
    /// message whose handling failed has the connection closed for sending.
    pub fn next_action(&self, event: RpcEvent) -> (res: RpcAction)
        ensures
            follows(event, res),
    {
        match event {
            RpcEvent::Message(Ok(msg)) => RpcAction::Handle(msg),
            RpcEvent::Message(Err(err)) => RpcAction::Stop(err),
            RpcEvent::Reply(reply_result) => self.handle_reply(reply_result),
            RpcEvent::Written(Ok(())) => RpcAction::Wait,
            RpcEvent::Written(Err(err)) => RpcAction::Stop(err),
        }
    }

    /// The request in a message from the peer.
    pub fn read_request(&self, msg: Bytes) -> (res: Result<RawRequest, RpcError>)
        ensures
            match decoded::<RpcRequest>(contents(msg)) {
                Ok(m) => {
                    &&& res matches Ok(req)
                    &&& req@ == request_of(m, self.peer@)
                    &&& req.request_id == m.request_id
                    &&& req.method == m.method
                    &&& contents(req.payload) == m.message
                    &&& req.peer.bytes@ == self.peer.bytes@
                },
                Err(err) => res == Err::<RawRequest, RpcError>(RpcError::DecodeError(err)),
            },
    {
        let req = match decode::<RpcRequest>(msg) {
            Ok(req) => req,
            Err(err) => {
                return Err(RpcError::from(err));
            },
        };
        Ok(
            RawRequest {
                request_id: req.request_id,
                method: req.method,
                payload: bytes_from_vec(req.message),
                peer: self.peer.clone(),
            },
        )
    }

    /// The response to a request, by what the service made of it.
    pub fn respond(
        request_id: RequestId,
        method: MethodId,
        result: Result<RawResponse, RpcStatus>,
    ) -> (res: RpcResponse)
        ensures
            res@ == response_to(request_id, method, outcome(result)),
            res.request_id == request_id,
            res.method == method,
            match result {
                Ok(resp) => {
                    &&& res.status == 200
                    &&& res.error@.len() == 0
                    &&& res.message@ == contents(resp.payload)
                },
                Err(status) => {
                    &&& res.status == status.code.number()
                    &&& res.error@ == status.details@
                    &&& res.message@.len() == 0
                },
            },
    {
        match result {
            Ok(resp) => RpcResponse {
                request_id,
                method,
                status: RpcStatus::ok().as_code(),
                error: String::new(),
                message: bytes_to_vec(&resp.payload),
            },
            Err(status) => RpcResponse {
                request_id,
                method,
                status: status.as_code(),
                error: status.to_string(),
                message: Vec::new(),
            },
        }
    }

    /// What to do about the end of the handling of a message: send the response, or, where there is
    /// none, close the connection for sending.
    pub fn handle_reply(&self, reply_result: Result<RpcResponse, RpcError>) -> (res: RpcAction)
        ensures
            follows_reply(reply_result, res),
    {
        match reply_result {
            Ok(reply) => {
                let bytes = reply.to_encoded_bytes();
                proof {
                    RpcResponse::reads_back(reply@);
                }
                RpcAction::Send(bytes_from_vec(bytes))
            },
            Err(_) => RpcAction::Close,
        }
    }

    /// A number for the next request. The numbers count up from 0 and start over behind the
    /// greatest.
    pub fn next_request_id(&mut self) -> (res: u32)
        ensures
            res == old(self).request_id,
            final(self).request_id == id_after(old(self).request_id, 1),
            old(self).request_id < u32::MAX ==> final(self).request_id == old(self).request_id + 1,
            old(self).request_id == u32::MAX ==> final(self).request_id == 0,
            final(self).service == old(self).service,
            final(self).peer == old(self).peer,
    {
        let next_id: u32 = self.request_id;
        match self.request_id.checked_add(1) {
            Some(id) => {
                self.request_id = id;
            },
            None => {
                self.request_id = 0;
            },
        }
        next_id
    }
}

impl<TService: RpcService> Rpc<TService> {
    /// Has the service answer a request.
    pub fn answer(&self, req: RawRequest) -> (res: RpcResponse)
        requires
            self.service.serves(req.method),
        ensures
            self.is_response(req@, res@),
    {
        let request_id: RequestId = req.request_id;
        let method: MethodId = req.method;
        let result = self.service.call(req);
        Self::respond(request_id, method, result)
    }

    /// Handles a message from the peer: the response to the request in it, or why there is none.
    pub fn handle_message(&self, msg: Bytes) -> (res: Result<RpcResponse, RpcError>)
        requires
            decoded::<RpcRequest>(contents(msg)) matches Ok(m) ==> self.service.serves(m.method),
        ensures
            self.handles(contents(msg), res),
    {
        match self.read_request(msg) {
            Ok(req) => Ok(self.answer(req)),
            Err(err) => Err(err),
        }
    }

    /// Whether `response` is what comes of something that the service may make of `request`.
    pub open spec fn is_response(self, request: RawRequestView, response: RpcResponseView) -> bool {
        exists|made: Result<Seq<u8>, RpcStatusView>| #[trigger]
            self.service.answers(request, made) && response == response_to(
                request.request_id,
                request.method,
                made,
            )
    }

    /// Whether `reply` is what may come of the message `msg`: a response to the request in it, or
    /// why it cannot be read.
    pub open spec fn handles(self, msg: Seq<u8>, reply: Result<RpcResponse, RpcError>) -> bool {
        match decoded::<RpcRequest>(msg) {
            Ok(m) => reply matches Ok(response) && self.is_response(
                request_of(m, self.peer@),
                response@,
            ),
            Err(err) => reply == Err::<RpcResponse, RpcError>(RpcError::DecodeError(err)),
        }
    }
}

/// A request whose message is the bytes of an answer reads as a request with that answer's message:
/// reading undoes writing, for every kind of message.
pub proof fn decode_undoes_encode<T: WireMessage>(
    answer: Response<T>,
    written: RawResponse,
    request: RawRequest,
)
    requires
        T::fits(answer.message@),
        written@ == T::encoded(answer.message@),
        request@.payload == written@,
    ensures
        decoded::<T>(request@.payload) == Ok::<T::V, DecodeError>(answer.message@),
{
    T::reads_back(answer.message@);
}

/// The number that comes `n` requests after `first`.
pub open spec fn id_after(first: u32, n: nat) -> u32 {
    ((first + n) % 0x1_0000_0000) as u32
}

/// The numbers of requests are counted one by one: the number `n + 1` requests on is the one after
/// the number `n` requests on.
pub proof fn request_ids_count_up(first: u32, n: nat)
    ensures
        id_after(first, 0) == first,
        id_after(first, n + 1) == id_after(id_after(first, n), 1),
{
}

/// The number behind a number is greater by one, and the number behind the greatest is 0. So,
/// counted from 0, the number `n` requests on is `n`, until all numbers have been given out.
pub proof fn the_next_number_is_greater_by_one(id: u32, n: nat)
    ensures
        id < u32::MAX ==> id_after(id, 1) == id + 1,
        id_after(u32::MAX, 1) == 0,
        n <= u32::MAX ==> id_after(0, n) == n,
        id_after(0, n + 0x1_0000_0000) == id_after(0, n),
        id + n <= u32::MAX ==> id_after(id, n) == id + n,
{
}

/// Two requests have different numbers, unless all other numbers were given out between them.
pub proof fn request_ids_differ(first: u32, i: nat, j: nat)
    requires
        i < j < i + 0x1_0000_0000,
    ensures
        id_after(first, i) != id_after(first, j),
{
}

/// A request is read as its peer made it, and the response that the peer reads carries the number
/// and the method of its request, and what the service made of it.
pub proof fn response_reaches_the_request(
    request: RpcRequestView,
    made: Result<Seq<u8>, RpcStatusView>,
)
    requires
        RpcRequest::fits(request),
        RpcResponse::fits(response_to(request.request_id, request.method, made)),
    ensures
        decoded::<RpcRequest>(RpcRequest::encoded(request)) == Ok::<RpcRequestView, DecodeError>(
            request,
        ),
        decoded::<RpcResponse>(
            RpcResponse::encoded(response_to(request.request_id, request.method, made)),
        ) matches Ok(response) && {
            &&& response.request_id == request.request_id
            &&& response.method == request.method
            &&& made matches Ok(message) ==> response.status == 200 && response.error.len() == 0
                && response.message == message
            &&& made matches Err(status) ==> response.status == status.code.number()
                && response.error == status.details && response.message.len() == 0
        },
{
    RpcRequest::reads_back(request);
    RpcResponse::reads_back(response_to(request.request_id, request.method, made));
}

/// A response says that its request was answered exactly if the service answered it, so long as no
/// service refuses a request with the status of success.
pub proof fn success_means_answered(
    request_id: RequestId,
    method: MethodId,
    made: Result<Seq<u8>, RpcStatusView>,
)
    requires
        made matches Err(status) ==> status.code != RpcStatusCode::Success,
    ensures
        response_to(request_id, method, made).status == 200 <==> made is Ok,
{
}

/// Every message that the connection delivers is handed over to be handled, whole and at once.
pub proof fn messages_are_handed_over(msg: Bytes, action: RpcAction)
    requires
        follows(RpcEvent::Message(Ok(msg)), action),
    ensures
        action matches RpcAction::Handle(given) && contents(given) == contents(msg),
{
}

/// What is sent for a reply reads as the whole of that reply, and is sent whatever the reply says.
pub proof fn replies_are_sent_whole(reply: RpcResponse, action: RpcAction)
    requires
        follows(RpcEvent::Reply(Ok(reply)), action) || follows_reply(Ok(reply), action),
    ensures
        action matches RpcAction::Send(frame) && {
            &&& contents(frame) == RpcResponse::encoded(reply@)
            &&& decoded::<RpcResponse>(contents(frame)) matches Ok(read) && {
                &&& read.request_id == reply.request_id
                &&& read.method == reply.method
                &&& read.status == reply.status
                &&& read.error == reply.error@
                &&& read.message == reply.message@
            }
        },
{
}

/// Where the handling of a message failed, whatever the reason, the connection is closed for
/// sending and nothing is sent.
pub proof fn failed_handling_closes(err: RpcError, action: RpcAction)
    requires
        follows(RpcEvent::Reply(Err(err)), action) || follows_reply(Err(err), action),
    ensures
        action is Close,
{
}

/// A failure of the connection stops the serving, with the error of that failure; a write that
/// succeeded calls for nothing.
pub proof fn failures_stop_with_their_error(err: RpcError, action: RpcAction)
    ensures
        follows(RpcEvent::Message(Err(err)), action) ==> action == RpcAction::Stop(err),
        follows(RpcEvent::Written(Err(err)), action) ==> action == RpcAction::Stop(err),
        follows(RpcEvent::Written(Ok(())), action) ==> action is Wait,
{
}

/// A request that a peer writes comes to the service with its number, its method and its whole
/// message, and with the identity of that peer.
pub proof fn requests_reach_the_service(request: RpcRequest, peer: NodeId, raw: RawRequest)
    requires
        RpcRequest::fits(request@),
        decoded::<RpcRequest>(RpcRequest::encoded(request@)) matches Ok(m) && raw@ == request_of(
            m,
            peer@,
        ),
    ensures
        raw.request_id == request.request_id,
        raw.method == request.method,
        contents(raw.payload) == request.message@,
        raw.peer.bytes@ == peer.bytes@,
{
    RpcRequest::reads_back(request@);
}

/// What a service made of a request is the whole of the bytes that it answered, or the whole of the
/// status with which it refused.
pub proof fn outcomes_are_whole(res: Result<RawResponse, RpcStatus>)
    ensures
        match res {
            Ok(response) => outcome(res) == Ok::<Seq<u8>, RpcStatusView>(
                contents(response.payload),
            ),
            Err(status) => outcome(res) matches Err(made) && made.code == status.code
                && made.details == status.details@,
        },
{
}

/// What comes of a message that can be read is a response with the number and the method of the
/// request in it, and with what the service made of just that request: the answer, with the status
/// 200, or the number and the details of the status of a refusal. What comes of another message is
/// the error of reading it.
pub proof fn messages_are_handled_by_the_service<TService: RpcService>(
    rpc: Rpc<TService>,
    msg: Seq<u8>,
    reply: Result<RpcResponse, RpcError>,
)
    requires
        rpc.handles(msg, reply),
    ensures
        match decoded::<RpcRequest>(msg) {
            Ok(m) => reply matches Ok(response) && {
                &&& response.request_id == m.request_id
                &&& response.method == m.method
                &&& exists|made: Result<Seq<u8>, RpcStatusView>| #[trigger]
                    rpc.service.answers(
                        RawRequestView {
                            request_id: m.request_id,
                            method: m.method,
                            payload: m.message,
                            peer: rpc.peer.bytes@,
                        },
                        made,
                    ) && match made {
                        Ok(answer) => response.status == 200 && response.error@.len() == 0
                            && response.message@ == answer,
                        Err(status) => response.status == status.code.number() && response.error@
                            == status.details && response.message@.len() == 0,
                    }
            },
            Err(err) => reply == Err::<RpcResponse, RpcError>(RpcError::DecodeError(err)),
        },
{
}

/// The variants of an enumeration are numbered from 0 in their order, and no other number stands
/// for one.
pub proof fn variants_are_numbered_in_order<T: EnumVariants>(value: u32)
    ensures
        T::variant(value) is Some <==> value < T::all_variants().len(),
        T::variant(value) matches Some(v) ==> T::all_variants().index_of(v) == value,
{
    T::lists_each_once();
    if let Some(v) = T::variant(value) {
        assert(T::all_variants()[value as int] == v);
        assert(T::all_variants().contains(v));
    }
}

} // verus!
