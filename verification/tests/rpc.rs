use bytes::Bytes;
use prost::DecodeError;
use tari_rpc::error::RpcError;
use tari_rpc::message::{decode, WireMessage};
use tari_rpc::proto::{RpcRequest, RpcResponse};
use tari_rpc::rpc::{
    NodeId, RawRequest, RawResponse, Response, Rpc, RpcAction, RpcEvent, RpcService, ToEnum,
};
use tari_rpc::service::{
    SayHelloRequest, SayHelloResponse, TestService, TestServiceImpl, TestServiceMethods,
};
use tari_rpc::status::RpcStatus;

fn peer() -> NodeId {
    NodeId { bytes: vec![1, 2, 3] }
}

fn rpc() -> Rpc<TestServiceImpl> {
    Rpc::new(TestServiceImpl { greeting: "Hello".to_string() }, peer())
}

fn frame(request_id: u32, method: u32, message: Vec<u8>) -> Bytes {
    Bytes::from(RpcRequest { request_id, method, message }.to_encoded_bytes())
}

fn hello(name: &str, age: u32) -> Vec<u8> {
    SayHelloRequest { name: name.to_string(), age }.to_encoded_bytes()
}

/// The response that a peer reads after it has sent a message.
fn exchange(rpc: &Rpc<TestServiceImpl>, msg: Bytes) -> RpcResponse {
    let msg = match rpc.next_action(RpcEvent::Message(Ok(msg))) {
        RpcAction::Handle(msg) => msg,
        _ => panic!("the message is not handled"),
    };
    let reply = rpc.try_handle_message(msg).unwrap();
    match rpc.next_action(RpcEvent::Reply(reply)) {
        RpcAction::Send(frame) => decode::<RpcResponse>(frame).unwrap(),
        _ => panic!("the response is not sent"),
    }
}

#[test]
fn todo() {}

#[test]
fn a_message_becomes_a_request() {
    let req = rpc().read_request(frame(300, 1, vec![4, 5])).unwrap();
    assert_eq!(req.request_id, 300);
    assert_eq!(req.method, 1);
    assert_eq!(&req.payload[..], &[4, 5]);
    assert_eq!(req.peer, peer());
}

#[test]
fn a_message_that_cannot_be_read_has_the_connection_closed() {
    assert!(rpc().read_request(Bytes::from(vec![0xFF])).is_err());
    let err = rpc().handle_message(Bytes::from(vec![0xFF])).unwrap_err();
    assert!(matches!(err, RpcError::DecodeError(_)));
    assert!(matches!(rpc().next_action(RpcEvent::Reply(Err(err))), RpcAction::Close));
}

#[test]
fn the_answer_is_in_the_response() {
    let resp = exchange(&rpc(), frame(42, 0, hello("Ada", 36)));
    assert_eq!(resp.request_id, 42);
    assert_eq!(resp.method, 0);
    assert_eq!(resp.status, 200);
    assert_eq!(resp.error, "");
    let greeting = decode::<SayHelloResponse>(Bytes::from(resp.message)).unwrap();
    assert_eq!(greeting.greeting, "Hello Ada, 36");
}

#[test]
fn a_refusal_is_in_the_response() {
    let resp = exchange(&rpc(), frame(43, 1, vec![]));
    assert_eq!(
        resp,
        RpcResponse {
            request_id: 43,
            method: 1,
            status: 404,
            error: "error method is not implemented".to_string(),
            message: vec![],
        }
    );
}

#[test]
fn a_request_whose_message_cannot_be_read_is_refused() {
    for &method in [0u32, 1].iter() {
        let resp = exchange(&rpc(), frame(44, method, vec![0x0A, 9]));
        assert_eq!(
            resp,
            RpcResponse {
                request_id: 44,
                method,
                status: 400,
                error: "Failed to decode request".to_string(),
                message: vec![],
            }
        );
    }
}

#[test]
fn a_request_for_a_method_that_there_is_not_is_not_handled() {
    assert!(rpc().try_handle_message(frame(1, 2, vec![])).is_none());
    assert!(rpc().try_handle_message(frame(1, u32::MAX, vec![])).is_none());
    assert!(rpc().try_handle_message(Bytes::from(vec![0x0A])).unwrap().is_err());
    assert!(rpc().try_handle_message(frame(1, 1, vec![])).unwrap().is_ok());
}

#[test]
fn handling_a_message_answers_its_request() {
    let resp = rpc().handle_message(frame(9, 0, hello("Eve", 1))).unwrap();
    assert_eq!(resp, exchange(&rpc(), frame(9, 0, hello("Eve", 1))));
    let req = rpc().read_request(frame(9, 0, hello("Eve", 1))).unwrap();
    assert_eq!(resp, rpc().answer(req));
}

#[test]
fn respond_holds_the_outcome() {
    let payload = Bytes::from(vec![1, 2]);
    let resp = Rpc::<TestServiceImpl>::respond(7, 8, Ok(RawResponse { payload }));
    assert_eq!((resp.request_id, resp.method, resp.status), (7, 8, 200));
    assert_eq!(resp.error, "");
    assert_eq!(resp.message, vec![1, 2]);
    let resp = Rpc::<TestServiceImpl>::respond(7, 8, Err(RpcStatus::general("no".to_string())));
    assert_eq!((resp.request_id, resp.method, resp.status), (7, 8, 500));
    assert_eq!(resp.error, "no");
    assert_eq!(resp.message, Vec::<u8>::new());
}

#[test]
fn serving_stops_where_the_connection_fails() {
    let failed = || RpcError::Io("reset".to_string());
    let stopped = |action: RpcAction| match action {
        RpcAction::Stop(RpcError::Io(reason)) => reason == "reset",
        _ => false,
    };
    assert!(stopped(rpc().next_action(RpcEvent::Message(Err(failed())))));
    assert!(stopped(rpc().next_action(RpcEvent::Written(Err(failed())))));
    assert!(matches!(rpc().next_action(RpcEvent::Written(Ok(()))), RpcAction::Wait));
    assert!(matches!(rpc().next_action(RpcEvent::Reply(Err(failed()))), RpcAction::Close));
    let err = RpcError::DecodeError(DecodeError::new("invalid varint"));
    assert!(matches!(rpc().handle_reply(Err(err)), RpcAction::Close));
}

#[test]
fn request_ids_count_up_and_start_over() {
    let mut rpc = rpc();
    assert_eq!(rpc.next_request_id(), 0);
    assert_eq!(rpc.next_request_id(), 1);
    assert_eq!(rpc.next_request_id(), 2);
    rpc.request_id = u32::MAX;
    assert_eq!(rpc.next_request_id(), u32::MAX);
    assert_eq!(rpc.next_request_id(), 0);
    assert_eq!(rpc.next_request_id(), 1);
}

#[test]
fn methods_have_their_numbers() {
    assert_eq!(TestServiceMethods::from_value(0), Some(TestServiceMethods::SayHello));
    assert_eq!(TestServiceMethods::from_value(1), Some(TestServiceMethods::Error));
    assert_eq!(TestServiceMethods::from_value(2), None);
    assert_eq!(TestServiceMethods::from_value(u32::MAX), None);
}

fn raw(method: u32, payload: Vec<u8>) -> RawRequest {
    RawRequest { request_id: 5, method, payload: Bytes::from(payload), peer: peer() }
}

#[test]
fn a_request_keeps_its_number_and_its_peer() {
    let request = raw(0, hello("Bob", 7)).decode::<SayHelloRequest>().unwrap();
    assert_eq!(request.request_id, 5);
    assert_eq!(request.peer, peer());
    assert_eq!(request.message, SayHelloRequest { name: "Bob".to_string(), age: 7 });
    let err = raw(0, vec![0x0A]).decode::<SayHelloRequest>().err().unwrap();
    assert!(matches!(err, RpcError::DecodeError(_)));
}

#[test]
fn the_error_is_that_of_reading_the_message() {
    let unreadable = vec![0x0A, 1, 0xFF];
    let expected = decode::<SayHelloRequest>(Bytes::from(unreadable.clone())).unwrap_err();
    match raw(0, unreadable).decode::<SayHelloRequest>().err().unwrap() {
        RpcError::DecodeError(err) => assert_eq!(err, expected),
        RpcError::Io(_) => panic!("reading is no matter of the connection"),
    }
    let unreadable = Bytes::from(vec![0x20, 1]);
    let expected = decode::<RpcRequest>(unreadable.clone()).unwrap_err();
    match rpc().handle_message(unreadable).unwrap_err() {
        RpcError::DecodeError(err) => assert_eq!(err, expected),
        RpcError::Io(_) => panic!("reading is no matter of the connection"),
    }
}

#[test]
fn reading_undoes_writing() {
    let message = SayHelloRequest { name: "Zoë".to_string(), age: 300 };
    let payload = Response::new(message.clone()).encode().payload;
    let request = RawRequest { request_id: 1, method: 9, payload, peer: peer() };
    assert_eq!(request.decode::<SayHelloRequest>().unwrap().message, message);
    let payload = Response::new(()).encode().payload;
    assert_eq!(payload.len(), 0);
}

#[test]
fn every_request_gets_one_response() {
    let rpc = rpc();
    let mut waiting: Vec<Bytes> = Vec::new();
    let mut asked: Vec<(u32, u32)> = Vec::new();
    for &(id, method) in [(7u32, 0u32), (8, 1), (7, 0), (9, 0)].iter() {
        asked.push((id, method));
        match rpc.next_action(RpcEvent::Message(Ok(frame(id, method, hello("Ada", id))))) {
            RpcAction::Handle(msg) => waiting.push(msg),
            _ => panic!("the message is not handled"),
        }
    }
    let mut told: Vec<(u32, u32)> = Vec::new();
    // The handling of the messages ends in another order.
    for &slot in [2usize, 0, 1, 0].iter() {
        let reply = rpc.try_handle_message(waiting.remove(slot)).unwrap();
        match rpc.next_action(RpcEvent::Reply(reply)) {
            RpcAction::Send(frame) => {
                let response = decode::<RpcResponse>(frame).unwrap();
                told.push((response.request_id, response.method));
            },
            _ => panic!("the response is not sent"),
        }
        assert!(matches!(rpc.next_action(RpcEvent::Written(Ok(()))), RpcAction::Wait));
    }
    assert_eq!(told, vec![(7, 0), (7, 0), (9, 0), (8, 1)]);
    asked.sort();
    told.sort();
    assert_eq!(told, asked);
}

#[test]
fn a_failure_leaves_what_is_handled_unanswered() {
    let rpc = rpc();
    let events = vec![
        RpcEvent::Message(Ok(frame(1, 0, hello("Ada", 1)))),
        RpcEvent::Message(Ok(frame(2, 1, vec![]))),
        RpcEvent::Reply(rpc.handle_message(frame(2, 1, vec![]))),
        RpcEvent::Written(Ok(())),
        RpcEvent::Message(Err(RpcError::Io("reset".to_string()))),
    ];
    let count = events.len();
    let mut told: Vec<u32> = Vec::new();
    for (i, event) in events.into_iter().enumerate() {
        match rpc.next_action(event) {
            RpcAction::Send(frame) => told.push(decode::<RpcResponse>(frame).unwrap().request_id),
            RpcAction::Stop(_) => assert_eq!(i, count - 1),
            RpcAction::Close => panic!("every message can be read"),
            RpcAction::Handle(_) | RpcAction::Wait => {},
        }
    }
    assert_eq!(told, vec![2]);
}

#[test]
fn the_service_greets() {
    let service = TestServiceImpl { greeting: "Good day".to_string() };
    for &(age, text) in [(0u32, "0"), (9, "9"), (10, "10"), (4_294_967_295, "4294967295")].iter() {
        let request = raw(0, hello("Bob", age)).decode::<SayHelloRequest>().unwrap();
        let greeting = service.say_hello(request).ok().unwrap().message.greeting;
        assert_eq!(greeting, format!("Good day Bob, {}", text));
        let payload = service.call(raw(0, hello("Bob", age))).ok().unwrap().payload;
        let expected = SayHelloResponse { greeting };
        assert_eq!(payload, Response::new(expected).encode().payload);
    }
}

#[test]
fn the_service_fails_when_asked_to() {
    let service = TestServiceImpl { greeting: String::new() };
    let request = raw(1, vec![]).decode::<()>().unwrap();
    let status = service.error(request).err().unwrap();
    assert_eq!(status.as_code(), 404);
    assert_eq!(status.to_string(), "error method is not implemented");
}
