//! End-to-end scenarios over the pure state machines: two nodes,
//! wired together by passing the exact texts each side would put on
//! the network.

use ip_chat::chat::ChatManager;
use ip_chat::connections::{ConnectionManager, InboundAction, PeerConnection};
use ip_chat::discovery::{describe_missing_peer, NetworkDiscovery};
use ip_chat::file_transfer::FileTransferManager;
use ip_chat::models::{TransferStatus, User};
use ip_chat::protocol::encode_message_envelope;

fn alpha() -> User {
    User {
        id: String::from("user-12345678"),
        name: String::from("alpha"),
        ip: String::from("192.168.1.10"),
        last_seen: 1000,
    }
}

fn beta() -> User {
    User {
        id: String::from("user-87654321"),
        name: String::from("beta"),
        ip: String::from("192.168.1.11"),
        last_seen: 1000,
    }
}

#[test]
fn discovery_round_trip_between_two_hosts() {
    let mut da = NetworkDiscovery::new(alpha());
    let mut db = NetworkDiscovery::new(beta());
    da.start_discovery().unwrap();
    db.start_discovery().unwrap();
    // each side resolves the other's advertisement
    let txt_a = da.registration_txt();
    let txt_b = db.registration_txt();
    let seen_by_a = da
        .handle_service_resolved(&txt_b, Some(String::from("192.168.1.11")), 1001)
        .expect("alpha discovers beta");
    let seen_by_b = db
        .handle_service_resolved(&txt_a, Some(String::from("192.168.1.10")), 1001)
        .expect("beta discovers alpha");
    assert_eq!(seen_by_a.id, "user-87654321");
    assert_eq!(seen_by_b.id, "user-12345678");
    // each directory holds exactly one entry: the other peer
    let peers_a = da.get_discovered_peers();
    let peers_b = db.get_discovered_peers();
    assert_eq!(peers_a.len(), 1);
    assert_eq!(peers_b.len(), 1);
    assert_eq!(peers_a[0].id, "user-87654321");
    assert_eq!(peers_a[0].ip, "192.168.1.11");
    assert_eq!(peers_b[0].id, "user-12345678");
    assert_eq!(peers_b[0].ip, "192.168.1.10");
}

#[test]
fn message_send_happy_path() {
    let mut chat_a = ChatManager::new(alpha());
    let mut chat_b = ChatManager::new(beta());
    let cm_b = ConnectionManager::new(beta());
    // alpha composes and stores, then frames the envelope
    let sent = chat_a.send_message(
        String::from("2c0f8a1e-0000-4000-8000-000000000001"),
        "user-87654321",
        "hello",
        1700000000,
    );
    let wire = encode_message_envelope(&sent);
    // beta's inbound dispatcher takes the envelope off the socket
    let received = match cm_b.handle_incoming_envelope(&wire, 1700000001) {
        InboundAction::DeliverMessage(m) => m,
        _ => panic!("the envelope must deliver to the recipient"),
    };
    assert_eq!(received.content, "hello");
    assert_eq!(received.sender_id, "user-12345678");
    assert_eq!(received.id, sent.id);
    // the chat layer stores it and the event fires
    let stored = chat_b.handle_incoming_message(received);
    assert!(stored.is_some());
    // alpha's view of the conversation holds exactly the sent message
    let conv = chat_a.get_messages_for_peer("user-87654321");
    assert_eq!(conv.len(), 1);
    assert_eq!(conv[0], sent);
}

#[test]
fn send_after_peer_gone() {
    let mut d = NetworkDiscovery::new(alpha());
    d.start_discovery().unwrap();
    // the peer never advertised; a refresh is asked for and changes nothing
    assert!(d.get_peer_by_id("user-X").is_none());
    assert!(d.refresh_peer_discovery().unwrap());
    assert!(d.get_peer_by_id("user-X").is_none());
    let report = describe_missing_peer("user-X", &d.get_discovered_peers());
    assert!(report.contains("Peer user-X not found"));
    // no message event: the chat store never saw a send
    let chat = ChatManager::new(alpha());
    assert!(chat.get_all_messages().is_empty());
}

#[test]
fn heartbeat_prune_after_peer_dies() {
    let mut cm = ConnectionManager::new(alpha());
    cm.register_connection(PeerConnection::new(
        String::from("user-87654321"),
        String::from("192.168.1.11:8765"),
        1000,
    ));
    // beta died: the heartbeat write fails, the entry is marked and removed
    let candidates = cm.heartbeat_candidates(1030);
    assert_eq!(candidates, vec![String::from("user-87654321")]);
    cm.remove_connection("user-87654321");
    cm.sweep_stale_connections(1030);
    assert!(cm.connections.is_empty());
    // the next send finds no session and dials afresh, failing cleanly
    assert!(cm.find_usable_connection("user-87654321", 1031).is_none());
}

#[test]
fn file_transfer_full_run() {
    let mut fm_a = FileTransferManager::new(alpha());
    let mut fm_b = FileTransferManager::new(beta());
    // sender offers a 131072-byte file; the offer crosses as JSON
    let offer = fm_a.create_outgoing_transfer(
        String::from("t-run"),
        "user-87654321",
        "192.168.1.11",
        String::from("a.bin"),
        131072,
        String::from("/tmp/a.bin"),
        1700000000,
    );
    let wire = fm_a.encode_stored_transfer(&offer);
    let mirror = fm_b.handle_transfer_request(&wire).expect("the recipient stores the offer");
    assert_eq!(mirror.status, TransferStatus::Pending);
    assert_eq!(mirror.file_name, "a.bin");
    // the recipient accepts with a destination; both sides stream chunks
    let accepted = fm_b.accept_transfer("t-run", "/tmp/b.bin").unwrap();
    assert_eq!(accepted.status, TransferStatus::InProgress);
    fm_a.accept_transfer("t-run", "/tmp/a.bin").ok();
    // sender side streams two 64 KiB chunks
    let sender_side = fm_a.get_all_transfers();
    assert_eq!(sender_side.len(), 1);
    // recipient receives two full chunks
    assert_eq!(fm_b.record_chunk("t-run", 65536).unwrap(), TransferStatus::InProgress);
    assert_eq!(fm_b.record_chunk("t-run", 65536).unwrap(), TransferStatus::Completed);
    assert_eq!(fm_b.finish_stream("t-run").unwrap(), TransferStatus::Completed);
    let done = &fm_b.get_all_transfers()[0];
    assert_eq!(done.status, TransferStatus::Completed);
    assert_eq!(done.bytes_transferred, 131072);
}

#[test]
fn reject_before_any_data() {
    let mut fm_a = FileTransferManager::new(alpha());
    let mut fm_b = FileTransferManager::new(beta());
    let offer = fm_a.create_outgoing_transfer(
        String::from("t-rej"),
        "user-87654321",
        "192.168.1.11",
        String::from("a.bin"),
        4096,
        String::from("/tmp/a.bin"),
        1700000000,
    );
    let wire = fm_a.encode_stored_transfer(&offer);
    fm_b.handle_transfer_request(&wire).expect("the recipient stores the offer");
    // the recipient rejects; the update crosses back as JSON
    let rejected = fm_b.reject_transfer("t-rej").unwrap();
    assert_eq!(rejected.status, TransferStatus::Rejected);
    let update = fm_b.encode_stored_transfer(&rejected);
    let on_sender = fm_a.handle_transfer_request(&update);
    assert!(on_sender.is_some());
    // the sender's record now shows the rejection; no byte ever moved
    assert_eq!(fm_a.get_all_transfers()[0].status, TransferStatus::Rejected);
    assert_eq!(fm_a.get_all_transfers()[0].bytes_transferred, 0);
    assert_eq!(fm_b.get_all_transfers()[0].bytes_transferred, 0);
    assert_eq!(fm_b.get_all_transfers()[0].status, TransferStatus::Rejected);
}
