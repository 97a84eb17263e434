//! Envelope classification and transfer-port framing.

use ip_chat::models::Message;
use ip_chat::protocol::{
    classify_envelope, encode_heartbeat, encode_heartbeat_response, encode_message_envelope,
    parse_transfer_frame, Envelope, TransferFrame,
};

fn sample_message() -> Message {
    Message {
        id: String::from("m-1"),
        sender_id: String::from("user-12345678"),
        recipient_id: String::from("user-87654321"),
        content: String::from("hello"),
        timestamp: 1700000000,
        read: false,
    }
}

#[test]
fn heartbeat_encode_exact() {
    assert_eq!(encode_heartbeat(0), "{\"type\":\"heartbeat\",\"timestamp\":0}");
    assert_eq!(
        encode_heartbeat(1700000000),
        "{\"type\":\"heartbeat\",\"timestamp\":1700000000}"
    );
    assert_eq!(encode_heartbeat(-5), "{\"type\":\"heartbeat\",\"timestamp\":-5}");
}

#[test]
fn heartbeat_response_encode_exact() {
    assert_eq!(
        encode_heartbeat_response(7),
        "{\"type\":\"heartbeat_response\",\"timestamp\":7}"
    );
}

#[test]
fn heartbeat_classifies_back() {
    let s = encode_heartbeat(1700000000);
    assert!(matches!(classify_envelope(&s), Envelope::Heartbeat(1700000000)));
    let s = encode_heartbeat_response(42);
    assert!(matches!(classify_envelope(&s), Envelope::HeartbeatResponse(42)));
}

#[test]
fn message_envelope_classifies_back() {
    let m = sample_message();
    let s = encode_message_envelope(&m);
    match classify_envelope(&s) {
        Envelope::ChatMessage(got) => assert_eq!(got, m),
        _ => panic!("message envelope must classify as a chat message"),
    }
}

#[test]
fn message_envelope_carries_byte_length() {
    let m = sample_message();
    let s = encode_message_envelope(&m);
    let v: serde_json::Value = serde_json::from_str(&s).expect("well-formed JSON");
    assert_eq!(v["type"], serde_json::Value::String(String::from("message")));
    let expected_len = ip_chat::codec::encode_message(&m).len() as u64;
    assert_eq!(
        v["length"],
        serde_json::Value::Number(serde_json::Number::from(expected_len))
    );
}

#[test]
fn unknown_envelopes_are_ignored() {
    assert!(matches!(classify_envelope(""), Envelope::Unknown));
    assert!(matches!(classify_envelope("{\"type\":\"gossip\"}"), Envelope::Unknown));
    assert!(matches!(
        classify_envelope("{\"type\":\"heartbeat\",\"timestamp\":xx}"),
        Envelope::Unknown
    ));
    assert!(matches!(classify_envelope("not json at all"), Envelope::Unknown));
}

#[test]
fn transfer_frame_commands() {
    match parse_transfer_frame("FILE_DATA:t-123") {
        TransferFrame::FileData(id) => assert_eq!(id, "t-123"),
        _ => panic!("FILE_DATA line must parse as a data push"),
    }
    match parse_transfer_frame("REQUEST_FILE:t-9") {
        TransferFrame::RequestFile(id) => assert_eq!(id, "t-9"),
        _ => panic!("REQUEST_FILE line must parse as a data request"),
    }
}

#[test]
fn transfer_frame_json_is_control() {
    assert!(matches!(parse_transfer_frame("{\"id\":\"t-1\"}"), TransferFrame::Control));
    assert!(matches!(parse_transfer_frame(""), TransferFrame::Control));
    assert!(matches!(parse_transfer_frame("FILE_DAT"), TransferFrame::Control));
}
