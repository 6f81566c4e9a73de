use bytes::Bytes;
use tari_rpc::message::{decode, WireMessage};
use tari_rpc::proto::{RpcRequest, RpcResponse};
use tari_rpc::service::{SayHelloRequest, SayHelloResponse};

fn read_request(bytes: &[u8]) -> Option<RpcRequest> {
    decode::<RpcRequest>(Bytes::from(bytes.to_vec())).ok()
}

fn read_response(bytes: &[u8]) -> Option<RpcResponse> {
    decode::<RpcResponse>(Bytes::from(bytes.to_vec())).ok()
}

fn request(request_id: u32, method: u32, message: &[u8]) -> RpcRequest {
    RpcRequest { request_id, method, message: message.to_vec() }
}

#[test]
fn a_request_has_these_bytes() {
    let req = request(300, 1, b"hi");
    assert_eq!(req.to_encoded_bytes(), vec![0x08, 0xAC, 0x02, 0x10, 0x01, 0x22, 0x02, b'h', b'i']);
}

#[test]
fn a_response_has_these_bytes() {
    let resp = RpcResponse {
        request_id: 1,
        method: 2,
        status: 404,
        error: "né".to_string(),
        message: vec![9],
    };
    assert_eq!(
        resp.to_encoded_bytes(),
        vec![0x08, 1, 0x10, 2, 0x18, 0x94, 0x03, 0x22, 3, b'n', 0xC3, 0xA9, 0x2A, 1, 9]
    );
}

#[test]
fn defaults_are_left_out() {
    assert_eq!(RpcRequest::default().to_encoded_bytes(), Vec::<u8>::new());
    assert_eq!(RpcResponse::default().to_encoded_bytes(), Vec::<u8>::new());
    assert_eq!(SayHelloRequest::default().to_encoded_bytes(), Vec::<u8>::new());
    assert_eq!(SayHelloResponse::default().to_encoded_bytes(), Vec::<u8>::new());
    assert_eq!(().to_encoded_bytes(), Vec::<u8>::new());
    assert_eq!(request(0, 7, b"").to_encoded_bytes(), vec![0x10, 7]);
}

#[test]
fn no_bytes_read_as_defaults() {
    assert_eq!(read_request(&[]), Some(request(0, 0, b"")));
    assert_eq!(read_response(&[]), Some(RpcResponse::default()));
    assert!(decode::<()>(Bytes::from(vec![])).is_ok());
}

#[test]
fn messages_read_back() {
    let numbers = [0u32, 1, 127, 128, 16_383, 16_384, 2_097_151, 2_097_152, 268_435_455, u32::MAX];
    for &n in numbers.iter() {
        let req = request(n, u32::MAX - n, &vec![0xA5; (n % 300) as usize]);
        assert_eq!(read_request(&req.to_encoded_bytes()), Some(req));
        let resp = RpcResponse {
            request_id: n,
            method: n / 3,
            status: 500,
            error: "é\u{10FFFF}x".repeat((n % 60) as usize),
            message: vec![1; (n % 7) as usize],
        };
        assert_eq!(read_response(&resp.to_encoded_bytes()), Some(resp));
    }
}

#[test]
fn a_long_message_reads_back() {
    let req = request(1, 2, &vec![7u8; 100_000]);
    let bytes = req.to_encoded_bytes();
    assert_eq!(bytes.len(), 2 + 2 + 1 + 3 + 100_000);
    assert_eq!(read_request(&bytes), Some(req));
}

#[test]
fn fields_come_in_any_order_and_the_last_value_stands() {
    assert_eq!(
        read_request(&[0x22, 1, 5, 0x10, 3, 0x08, 9, 0x10, 4]),
        Some(request(9, 4, &[5]))
    );
    assert_eq!(read_request(&[0x22, 2, 5, 6, 0x22, 1, 7]), Some(request(0, 0, &[7])));
    assert_eq!(read_request(&[0x08, 9, 0x08, 0]), Some(request(0, 0, b"")));
}

#[test]
fn unknown_fields_are_skipped() {
    // Field 3 is unknown to a request; so is field 10, in each wire type.
    assert_eq!(read_request(&[0x18, 0x96, 0x01, 0x08, 2]), Some(request(2, 0, b"")));
    assert_eq!(read_request(&[0x51, 1, 2, 3, 4, 5, 6, 7, 8, 0x08, 2]), Some(request(2, 0, b"")));
    assert_eq!(read_request(&[0x52, 3, 1, 2, 3, 0x08, 2]), Some(request(2, 0, b"")));
    assert_eq!(read_request(&[0x53, 0x08, 7, 0x54, 0x08, 2]), Some(request(2, 0, b"")));
    assert_eq!(read_request(&[0x55, 1, 2, 3, 4, 0x08, 2]), Some(request(2, 0, b"")));
    assert!(decode::<()>(Bytes::from(vec![0x08, 5, 0x12, 1, 1])).is_ok());
}

#[test]
fn unknown_fields_that_are_cut_short_are_refused() {
    assert_eq!(read_request(&[0x18]), None);
    assert_eq!(read_request(&[0x51, 1, 2, 3, 4, 5, 6, 7]), None);
    assert_eq!(read_request(&[0x52, 3, 1, 2]), None);
    assert_eq!(read_request(&[0x53, 0x08, 7]), None);
    assert_eq!(read_request(&[0x53, 0x08, 7, 0x5C]), None);
    assert_eq!(read_request(&[0x54]), None);
    assert_eq!(read_request(&[0x55, 1, 2, 3]), None);
}

/// Groups of the unknown field 10, each in the one before it, around `inner`.
fn groups(count: usize, inner: &[u8]) -> Vec<u8> {
    let mut bytes = vec![0x53; count];
    bytes.extend_from_slice(inner);
    bytes.extend(vec![0x54; count]);
    bytes
}

#[test]
fn groups_are_skipped_to_their_end() {
    let mut bytes = groups(3, &[0x08, 7, 0x0A, 1, 9, 0x55, 1, 2, 3, 4]);
    bytes.extend_from_slice(&[0x08, 2]);
    assert_eq!(read_request(&bytes), Some(request(2, 0, b"")));
    // Groups side by side in a group; a group that another tag closes; a field that is cut short.
    let side_by_side = [0x53, 0x63, 0x64, 0x63, 0x64, 0x54, 0x10, 5];
    assert_eq!(read_request(&side_by_side), Some(request(0, 5, b"")));
    assert_eq!(read_request(&[0x53, 0x63, 0x54, 0x64]), None);
    assert_eq!(read_request(&[0x53, 0x0A, 2, 0x54]), None);
}

#[test]
fn groups_lie_only_so_deep() {
    assert_eq!(read_request(&groups(100, &[])), Some(request(0, 0, b"")));
    assert_eq!(read_request(&groups(101, &[])), None);
    assert_eq!(read_request(&groups(99, &[0x08, 7])), Some(request(0, 0, b"")));
    assert_eq!(read_request(&groups(100, &[0x08, 7])), None);
}

#[test]
fn keys_that_are_none_are_refused() {
    // Tag 0; wire types 6 and 7; a key of more than 32 bits; a key that is cut short.
    assert_eq!(read_request(&[0x00, 1]), None);
    assert_eq!(read_request(&[0x0E, 1]), None);
    assert_eq!(read_request(&[0x0F, 1]), None);
    assert_eq!(read_request(&[0x88, 0x80, 0x80, 0x80, 0x10, 1]), None);
    assert_eq!(read_request(&[0x88]), None);
}

#[test]
fn values_of_the_wrong_kind_are_refused() {
    assert_eq!(read_request(&[0x0A, 1, 1]), None);
    assert_eq!(read_request(&[0x20, 1]), None);
    assert_eq!(read_response(&[0x20, 1]), None);
}

#[test]
fn values_that_are_cut_short_are_refused() {
    assert_eq!(read_request(&[0x08]), None);
    assert_eq!(read_request(&[0x08, 0x80]), None);
    assert_eq!(read_request(&[0x22, 2, 1]), None);
    assert_eq!(read_request(&[0x22]), None);
    assert_eq!(read_response(&[0x22, 5, b'a']), None);
}

#[test]
fn text_that_is_not_utf8_is_refused() {
    assert_eq!(read_response(&[0x22, 1, 0xFF]), None);
    assert_eq!(read_response(&[0x22, 2, 0xC3, 0xA9]).unwrap().error, "é");
}

#[test]
fn integers_are_cut_to_their_width() {
    // 2^32 + 5 reads as 5.
    assert_eq!(read_request(&[0x08, 0x85, 0x80, 0x80, 0x80, 0x10]), Some(request(5, 0, b"")));
    // Ten bytes are the most; the bits beyond the 64th are dropped.
    let ten = [0x08, 0xFF, 0xFF, 0xFF, 0xFF, 0xFF, 0xFF, 0xFF, 0xFF, 0xFF, 0x7F];
    assert_eq!(read_request(&ten), Some(request(u32::MAX, 0, b"")));
    let eleven = [0x08, 0xFF, 0xFF, 0xFF, 0xFF, 0xFF, 0xFF, 0xFF, 0xFF, 0xFF, 0xFF, 0x00];
    assert_eq!(read_request(&eleven), None);
    // A length of 2^64 + 1 in ten bytes reads as 1.
    let len = [0x22, 0x81, 0x80, 0x80, 0x80, 0x80, 0x80, 0x80, 0x80, 0x80, 0x02, 0x2A];
    assert_eq!(read_request(&len), Some(request(0, 0, &[0x2A])));
    // Zero in two bytes.
    assert_eq!(read_request(&[0x08, 0x80, 0x00]), Some(request(0, 0, b"")));
}

#[test]
fn an_error_names_the_field() {
    let err = decode::<RpcRequest>(Bytes::from(vec![0x08])).unwrap_err();
    assert_eq!(
        err.to_string(),
        "failed to decode Protobuf message: RpcRequest.request_id: invalid varint"
    );
    let err = decode::<SayHelloRequest>(Bytes::from(vec![0x0A, 1, 0xFF])).unwrap_err();
    assert_eq!(
        err.to_string(),
        "failed to decode Protobuf message: SayHelloRequest.name: invalid string value: data is \
         not UTF-8 encoded"
    );
}

#[test]
fn each_kind_of_failure_has_its_error() {
    let text = |bytes: Vec<u8>| decode::<RpcResponse>(Bytes::from(bytes)).unwrap_err().to_string();
    let start = "failed to decode Protobuf message: ";
    assert_eq!(text(vec![0x00]), format!("{}invalid tag value: 0", start));
    assert_eq!(text(vec![0x18]), format!("{}RpcResponse.status: invalid varint", start));
    assert_eq!(text(vec![0x2A, 2, 1]), format!("{}RpcResponse.message: buffer underflow", start));
    assert_eq!(
        text(vec![0x20, 1]),
        format!(
            "{}RpcResponse.error: invalid wire type: Varint (expected LengthDelimited)",
            start
        )
    );
    assert_eq!(text(vec![0x54]), format!("{}unexpected end group tag", start));
}

#[test]
fn a_greeting_has_the_bytes_of_a_wrapped_string() {
    let greeting = "Hello there".to_string();
    let mut wrapped: Vec<u8> = Vec::new();
    prost::Message::encode(&greeting, &mut wrapped).unwrap();
    let bytes = SayHelloResponse { greeting }.to_encoded_bytes();
    assert_eq!(bytes, wrapped);
    let read = decode::<SayHelloResponse>(Bytes::from(bytes)).unwrap();
    assert_eq!(read.greeting, "Hello there");
}
