use prost::DecodeError;
use tari_rpc::error::RpcError;
use tari_rpc::status::{RpcStatus, RpcStatusCode};

#[test]
fn statuses_have_their_codes_and_details() {
    let ok = RpcStatus::ok();
    assert_eq!(ok.as_code(), 200);
    assert_eq!(ok.to_string(), "");
    let status = RpcStatus::invalid_method("no such method".to_string());
    assert_eq!(status.as_code(), 300);
    assert_eq!(status.to_string(), "no such method");
    let status = RpcStatus::bad_request("bad".to_string());
    assert_eq!(status.as_code(), 400);
    assert_eq!(status.to_string(), "bad");
    let status = RpcStatus::not_implemented("later".to_string());
    assert_eq!(status.as_code(), 404);
    assert_eq!(status.to_string(), "later");
    let status = RpcStatus::general("oops".to_string());
    assert_eq!(status.as_code(), 500);
    assert_eq!(status.to_string(), "oops");
}

#[test]
fn an_unreadable_request_is_a_bad_request() {
    let status = RpcStatus::from(RpcError::from(DecodeError::new("invalid varint")));
    assert_eq!(status.code, RpcStatusCode::BadRequest);
    assert_eq!(status.to_string(), "Failed to decode request");
}

#[test]
fn other_errors_are_not_told() {
    let status = RpcStatus::from(RpcError::Io("connection reset".to_string()));
    assert_eq!(status.code, RpcStatusCode::General);
    assert_eq!(status.to_string(), "Request failed");
}
