//! Round trips and exact wire texts for the three record codecs.

use ip_chat::codec::{
    decode_message, decode_transfer, decode_user, encode_message, encode_transfer, encode_user,
};
use ip_chat::models::{FileTransfer, Message, TransferStatus, User};

fn sample_user() -> User {
    User {
        id: String::from("user-12345678"),
        name: String::from("alpha"),
        ip: String::from("192.168.1.10"),
        last_seen: 0,
    }
}

fn sample_message() -> Message {
    Message {
        id: String::from("m-1"),
        sender_id: String::from("user-12345678"),
        recipient_id: String::from("user-87654321"),
        content: String::from("hello"),
        timestamp: 1700000000,
        read: false,
    }
}

fn sample_transfer() -> FileTransfer {
    FileTransfer {
        id: String::from("t-1"),
        sender_id: String::from("user-12345678"),
        recipient_id: String::from("user-87654321"),
        sender_ip: Some(String::from("192.168.1.10")),
        recipient_ip: Some(String::from("192.168.1.11")),
        file_name: String::from("a.bin"),
        file_size: 131072,
        source_path: Some(String::from("/tmp/a.bin")),
        destination_path: None,
        status: TransferStatus::Pending,
        bytes_transferred: 0,
        timestamp: 1700000000,
        error: None,
    }
}

#[test]
fn user_encode_exact() {
    let s = encode_user(&sample_user());
    assert_eq!(
        s,
        "{\"id\":\"user-12345678\",\"name\":\"alpha\",\"ip\":\"192.168.1.10\",\
         \"lastSeen\":\"1970-01-01T00:00:00Z\"}"
    );
}

#[test]
fn user_round_trip() {
    let u = sample_user();
    let s = encode_user(&u);
    let back = decode_user(&s).expect("canonical text must decode");
    assert_eq!(back, u);
}

#[test]
fn user_round_trip_with_escapes() {
    let u = User {
        id: String::from("user-1"),
        name: String::from("a\"b\\c\nd\te\u{8}f\u{1f}g"),
        ip: String::from("10.0.0.1"),
        last_seen: 253402300799,
    };
    let s = encode_user(&u);
    let back = decode_user(&s).expect("escaped text must decode");
    assert_eq!(back, u);
}

#[test]
fn user_round_trip_unicode() {
    let u = User {
        id: String::from("user-2"),
        name: String::from("héllo wörld ☃"),
        ip: String::from("10.0.0.2"),
        last_seen: 1,
    };
    let s = encode_user(&u);
    let back = decode_user(&s).expect("unicode text must decode");
    assert_eq!(back, u);
}

#[test]
fn user_decode_rejects_noise() {
    assert!(decode_user("").is_none());
    assert!(decode_user("{}").is_none());
    assert!(decode_user("{\"id\":\"x\"}").is_none());
    let s = encode_user(&sample_user());
    let mut padded = s.clone();
    padded.push(' ');
    assert!(decode_user(&padded).is_none());
}

#[test]
fn user_json_matches_serde_reading() {
    let s = encode_user(&sample_user());
    let v: serde_json::Value = serde_json::from_str(&s).expect("well-formed JSON");
    assert_eq!(v["id"], serde_json::Value::String(String::from("user-12345678")));
    assert_eq!(v["name"], serde_json::Value::String(String::from("alpha")));
    assert_eq!(v["ip"], serde_json::Value::String(String::from("192.168.1.10")));
    assert_eq!(
        v["lastSeen"],
        serde_json::Value::String(String::from("1970-01-01T00:00:00Z"))
    );
}

#[test]
fn message_encode_exact() {
    let s = encode_message(&sample_message());
    assert_eq!(
        s,
        "{\"id\":\"m-1\",\"senderId\":\"user-12345678\",\"recipientId\":\"user-87654321\",\
         \"content\":\"hello\",\"timestamp\":\"2023-11-14T22:13:20Z\",\"read\":false}"
    );
}

#[test]
fn message_round_trip() {
    let m = sample_message();
    let s = encode_message(&m);
    let back = decode_message(&s).expect("canonical text must decode");
    assert_eq!(back, m);
}

#[test]
fn message_round_trip_read_flag() {
    let mut m = sample_message();
    m.read = true;
    m.content = String::from("");
    let s = encode_message(&m);
    let back = decode_message(&s).expect("canonical text must decode");
    assert_eq!(back, m);
}

#[test]
fn message_json_matches_serde_reading() {
    let s = encode_message(&sample_message());
    let v: serde_json::Value = serde_json::from_str(&s).expect("well-formed JSON");
    assert_eq!(v["senderId"], serde_json::Value::String(String::from("user-12345678")));
    assert_eq!(v["content"], serde_json::Value::String(String::from("hello")));
    assert_eq!(v["read"], serde_json::Value::Bool(false));
}

#[test]
fn transfer_encode_exact() {
    let s = encode_transfer(&sample_transfer());
    assert_eq!(
        s,
        "{\"id\":\"t-1\",\"senderId\":\"user-12345678\",\"recipientId\":\"user-87654321\",\
         \"senderIp\":\"192.168.1.10\",\"recipientIp\":\"192.168.1.11\",\"fileName\":\"a.bin\",\
         \"fileSize\":131072,\"sourcePath\":\"/tmp/a.bin\",\"destinationPath\":null,\
         \"status\":\"Pending\",\"bytesTransferred\":0,\"timestamp\":\"2023-11-14T22:13:20Z\",\
         \"error\":null}"
    );
}

#[test]
fn transfer_round_trip() {
    let t = sample_transfer();
    let s = encode_transfer(&t);
    let back = decode_transfer(&s).expect("canonical text must decode");
    assert_eq!(back, t);
}

#[test]
fn transfer_round_trip_every_status() {
    let statuses = [
        TransferStatus::Pending,
        TransferStatus::InProgress,
        TransferStatus::Completed,
        TransferStatus::Rejected,
        TransferStatus::Cancelled,
        TransferStatus::Failed,
    ];
    for st in statuses {
        let mut t = sample_transfer();
        t.status = st;
        if st == TransferStatus::Completed {
            t.bytes_transferred = t.file_size;
        }
        if st == TransferStatus::Failed {
            t.error = Some(String::from("boom"));
        }
        let s = encode_transfer(&t);
        let back = decode_transfer(&s).expect("canonical text must decode");
        assert_eq!(back, t);
    }
}

#[test]
fn transfer_decode_rejects_progress_past_size() {
    let mut t = sample_transfer();
    t.status = TransferStatus::InProgress;
    t.bytes_transferred = 5;
    t.file_size = 100;
    let s = encode_transfer(&t);
    let forged = s.replace("\"bytesTransferred\":5", "\"bytesTransferred\":500");
    assert!(decode_transfer(&forged).is_none());
}

#[test]
fn transfer_json_matches_serde_reading() {
    let s = encode_transfer(&sample_transfer());
    let v: serde_json::Value = serde_json::from_str(&s).expect("well-formed JSON");
    assert_eq!(v["fileSize"], serde_json::Value::Number(serde_json::Number::from(131072u64)));
    assert_eq!(v["destinationPath"], serde_json::Value::Null);
    assert_eq!(v["status"], serde_json::Value::String(String::from("Pending")));
}

#[test]
fn transfer_round_trip_extreme_size() {
    let mut t = sample_transfer();
    t.file_size = u64::MAX;
    t.bytes_transferred = u64::MAX;
    t.status = TransferStatus::Completed;
    let s = encode_transfer(&t);
    let back = decode_transfer(&s).expect("canonical text must decode");
    assert_eq!(back, t);
}

#[test]
fn message_round_trip_control_characters() {
    let mut m = sample_message();
    m.content = String::from("\u{0}\u{1}\u{1f}\u{7f} end");
    let s = encode_message(&m);
    assert!(s.contains("\\u0000"));
    assert!(s.contains("\\u001f"));
    let back = decode_message(&s).expect("canonical text must decode");
    assert_eq!(back, m);
}

#[test]
fn decode_rejects_non_canonical_numbers() {
    let t = sample_transfer();
    let s = encode_transfer(&t);
    // a leading zero is not the canonical spelling
    let forged = s.replace("\"bytesTransferred\":0", "\"bytesTransferred\":00");
    assert!(decode_transfer(&forged).is_none());
}
