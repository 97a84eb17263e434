//! The four state machines: directory, connections, chat store,
//! transfers.

use ip_chat::chat::ChatManager;
use ip_chat::connections::{ConnectionManager, InboundAction, PeerConnection};
use ip_chat::discovery::{describe_missing_peer, NetworkDiscovery};
use ip_chat::errors::AppError;
use ip_chat::file_transfer::FileTransferManager;
use ip_chat::models::{TransferStatus, User};

fn alpha() -> User {
    User {
        id: String::from("user-12345678"),
        name: String::from("alpha"),
        ip: String::from("192.168.1.10"),
        last_seen: 1000,
    }
}

fn beta() -> User {
    User {
        id: String::from("user-87654321"),
        name: String::from("beta"),
        ip: String::from("192.168.1.11"),
        last_seen: 1000,
    }
}

#[test]
fn discovery_lifecycle_gates() {
    let mut d = NetworkDiscovery::new(alpha());
    assert!(d.start_discovery().is_ok());
    assert!(d.is_running && d.service_registered);
    // starting a running service is the discovery error
    match d.start_discovery() {
        Err(AppError::DiscoveryError(m)) => assert_eq!(m, "Discovery already running"),
        _ => panic!("second start must fail with a discovery error"),
    }
    // stop always succeeds, even twice
    assert!(d.stop_discovery().is_ok());
    assert!(!d.is_running && !d.service_registered && d.peers.is_empty());
    assert!(d.stop_discovery().is_ok());
}

#[test]
fn discovery_stop_clears_directory() {
    let mut d = NetworkDiscovery::new(alpha());
    d.start_discovery().unwrap();
    let stored = d.upsert_discovered_peer(beta(), None, 1000);
    assert!(stored.is_some());
    assert_eq!(d.peers.len(), 1);
    d.stop_discovery().unwrap();
    assert!(d.peers.is_empty());
    assert!(!d.service_registered);
}

#[test]
fn discovery_never_stores_local_user() {
    let mut d = NetworkDiscovery::new(alpha());
    assert!(d.upsert_discovered_peer(alpha(), None, 1000).is_none());
    assert!(d.peers.is_empty());
}

#[test]
fn discovery_later_resolution_overwrites_ip() {
    let mut d = NetworkDiscovery::new(alpha());
    d.upsert_discovered_peer(beta(), Some(String::from("192.168.1.50")), 1000);
    let got = d.get_peer_by_id("user-87654321").unwrap();
    assert_eq!(got.ip, "192.168.1.50");
    // the peer shows up again under a different address
    d.upsert_discovered_peer(beta(), Some(String::from("192.168.1.99")), 1100);
    assert_eq!(d.peers.len(), 1);
    let got = d.get_peer_by_id("user-87654321").unwrap();
    assert_eq!(got.ip, "192.168.1.99");
    assert_eq!(got.last_seen, 1100);
}

#[test]
fn discovery_cleanup_drops_stale_entries() {
    let mut d = NetworkDiscovery::new(alpha());
    d.upsert_discovered_peer(beta(), None, 1000);
    // 599 s later the peer is still fresh
    assert!(d.cleanup_stale_peers(1599).is_none());
    assert_eq!(d.peers.len(), 1);
    // at 600 s it is stale and goes
    let remaining = d.cleanup_stale_peers(1600);
    assert!(remaining.is_some());
    assert!(remaining.unwrap().is_empty());
    assert!(d.peers.is_empty());
}

#[test]
fn discovery_removal_matches_instance_name() {
    let mut d = NetworkDiscovery::new(alpha());
    d.upsert_discovered_peer(beta(), None, 1000);
    // an unrelated withdrawal changes nothing
    assert!(d.handle_service_removed("ip-chat-user-00000000").is_none());
    assert_eq!(d.peers.len(), 1);
    // the peer's own instance name removes it
    let left = d.handle_service_removed("ip-chat-user-87654321");
    assert!(left.is_some());
    assert!(d.peers.is_empty());
}

#[test]
fn discovery_resolved_txt_round_trip() {
    let mut da = NetworkDiscovery::new(alpha());
    let db = NetworkDiscovery::new(beta());
    let txt = db.registration_txt();
    let stored = da.handle_service_resolved(&txt, Some(String::from("192.168.1.11")), 2000);
    let u = stored.expect("a peer's record must be stored");
    assert_eq!(u.id, "user-87654321");
    assert_eq!(u.name, "beta");
    assert_eq!(u.ip, "192.168.1.11");
    assert_eq!(u.last_seen, 2000);
}

#[test]
fn discovery_broadcast_requires_running() {
    let mut d = NetworkDiscovery::new(alpha());
    match d.broadcast_user_update(String::from("fresh-name")) {
        Err(AppError::DiscoveryError(m)) => assert_eq!(m, "Discovery not running"),
        _ => panic!("broadcast without discovery must fail"),
    }
    d.start_discovery().unwrap();
    let txt = d.broadcast_user_update(String::from("fresh-name")).unwrap();
    assert!(txt.contains("\"name\":\"fresh-name\""));
    assert_eq!(d.local_user.name, "fresh-name");
}

#[test]
fn discovery_service_name_and_type() {
    let d = NetworkDiscovery::new(alpha());
    assert_eq!(d.service_name(), "ip-chat-user-12345678");
    assert_eq!(ip_chat::discovery::service_type(), "_ip-chat._tcp.local.");
}

#[test]
fn missing_peer_report() {
    let text = describe_missing_peer("user-X", &vec![]);
    assert!(text.contains("Peer user-X not found"));
    assert!(text.ends_with("Available peers: none"));
    let text = describe_missing_peer("user-X", &vec![alpha(), beta()]);
    assert!(text.ends_with("Available peers: alpha(user-12345678), beta(user-87654321)"));
}

#[test]
fn connections_reuse_and_idle() {
    let mut cm = ConnectionManager::new(alpha());
    assert!(cm.find_usable_connection("user-87654321", 1000).is_none());
    cm.register_connection(PeerConnection::new(
        String::from("user-87654321"),
        String::from("192.168.1.11:8765"),
        1000,
    ));
    assert!(cm.find_usable_connection("user-87654321", 1200).is_some());
    // 300 s without traffic counts as idle, so no reuse
    assert!(cm.find_usable_connection("user-87654321", 1300).is_none());
    // traffic refreshes the clock
    cm.note_send_success("user-87654321", 1290);
    assert!(cm.find_usable_connection("user-87654321", 1500).is_some());
}

#[test]
fn connections_failed_write_removes_entry() {
    let mut cm = ConnectionManager::new(alpha());
    cm.register_connection(PeerConnection::new(
        String::from("user-87654321"),
        String::from("192.168.1.11:8765"),
        1000,
    ));
    cm.remove_connection("user-87654321");
    assert!(cm.connections.is_empty());
    assert!(cm.find_usable_connection("user-87654321", 1000).is_none());
}

#[test]
fn connections_sweep_prunes_inactive_and_idle() {
    let mut cm = ConnectionManager::new(alpha());
    cm.register_connection(PeerConnection::new(
        String::from("user-1"),
        String::from("10.0.0.1:8765"),
        1000,
    ));
    cm.register_connection(PeerConnection::new(
        String::from("user-2"),
        String::from("10.0.0.2:8765"),
        1400,
    ));
    let mut dead = PeerConnection::new(String::from("user-3"), String::from("10.0.0.3:8765"), 1400);
    dead.set_inactive();
    cm.register_connection(dead);
    assert_eq!(cm.get_active_connections().len(), 2);
    let candidates = cm.heartbeat_candidates(1450);
    assert_eq!(candidates, vec![String::from("user-2")]);
    cm.sweep_stale_connections(1450);
    // user-1 idles out at 1300, user-3 was inactive; user-2 survives
    assert_eq!(cm.connections.len(), 1);
    assert_eq!(cm.connections[0].peer_id, "user-2");
    cm.close_all_connections();
    assert!(cm.connections.is_empty());
}

#[test]
fn chat_send_keeps_local_copy() {
    let mut chat = ChatManager::new(alpha());
    let m = chat.send_message(String::from("m-1"), "user-87654321", "hello", 2000);
    assert_eq!(m.sender_id, "user-12345678");
    assert_eq!(m.recipient_id, "user-87654321");
    assert_eq!(m.content, "hello");
    assert!(!m.read);
    let conv = chat.get_messages_for_peer("user-87654321");
    assert_eq!(conv.len(), 1);
    assert_eq!(conv[0], m);
}

#[test]
fn chat_incoming_for_someone_else_is_dropped() {
    let mut chat = ChatManager::new(alpha());
    let mut m = ip_chat::models::Message {
        id: String::from("m-2"),
        sender_id: String::from("user-87654321"),
        recipient_id: String::from("user-99999999"),
        content: String::from("not for us"),
        timestamp: 2000,
        read: false,
    };
    assert!(chat.handle_incoming_message(m.clone()).is_none());
    assert!(chat.get_all_messages().is_empty());
    m.recipient_id = String::from("user-12345678");
    assert!(chat.handle_incoming_message(m.clone()).is_some());
    assert_eq!(chat.get_all_messages().len(), 1);
}

#[test]
fn chat_conversation_is_sorted_by_timestamp() {
    let mut chat = ChatManager::new(alpha());
    chat.send_message(String::from("m-3"), "user-87654321", "later", 3000);
    let incoming = ip_chat::models::Message {
        id: String::from("m-4"),
        sender_id: String::from("user-87654321"),
        recipient_id: String::from("user-12345678"),
        content: String::from("earlier"),
        timestamp: 2500,
        read: false,
    };
    chat.handle_incoming_message(incoming);
    let conv = chat.get_messages_for_peer("user-87654321");
    assert_eq!(conv.len(), 2);
    assert_eq!(conv[0].content, "earlier");
    assert_eq!(conv[1].content, "later");
}

#[test]
fn chat_mark_read_is_idempotent() {
    let mut chat = ChatManager::new(alpha());
    let incoming = ip_chat::models::Message {
        id: String::from("m-5"),
        sender_id: String::from("user-87654321"),
        recipient_id: String::from("user-12345678"),
        content: String::from("hi"),
        timestamp: 2500,
        read: false,
    };
    chat.handle_incoming_message(incoming);
    assert!(chat.mark_messages_as_read("user-87654321").is_ok());
    let once = chat.get_messages_for_peer("user-87654321");
    assert!(once[0].read);
    assert!(chat.mark_messages_as_read("user-87654321").is_ok());
    let twice = chat.get_messages_for_peer("user-87654321");
    assert_eq!(once, twice);
    // a missing bucket is not an error
    assert!(chat.mark_messages_as_read("user-no-such").is_ok());
}

#[test]
fn inbound_heartbeat_gets_a_response() {
    let cm = ConnectionManager::new(alpha());
    let hb = ip_chat::protocol::encode_heartbeat(123);
    match cm.handle_incoming_envelope(&hb, 999) {
        InboundAction::RespondHeartbeat(resp) => {
            assert_eq!(resp, "{\"type\":\"heartbeat_response\",\"timestamp\":999}");
        },
        _ => panic!("a heartbeat must be answered"),
    }
    let resp = ip_chat::protocol::encode_heartbeat_response(5);
    assert!(matches!(cm.handle_incoming_envelope(&resp, 999), InboundAction::Ignore));
    assert!(matches!(cm.handle_incoming_envelope("junk", 999), InboundAction::Ignore));
}

#[test]
fn transfers_lifecycle_errors() {
    let mut fm = FileTransferManager::new(alpha());
    match fm.accept_transfer("t-404", "/tmp/b.bin") {
        Err(AppError::TransferNotFound(m)) => assert_eq!(m, "t-404"),
        _ => panic!("an unknown id must be the not-found error"),
    }
    let t = fm.create_outgoing_transfer(
        String::from("t-1"),
        "user-87654321",
        "192.168.1.11",
        String::from("a.bin"),
        100,
        String::from("/tmp/a.bin"),
        2000,
    );
    assert_eq!(t.status, TransferStatus::Pending);
    assert_eq!(t.bytes_transferred, 0);
    // rejecting twice: the second is an invalid operation
    assert!(fm.reject_transfer("t-1").is_ok());
    assert!(matches!(fm.reject_transfer("t-1"), Err(AppError::InvalidOperation(_))));
    assert!(matches!(fm.accept_transfer("t-1", "/tmp/b.bin"), Err(AppError::InvalidOperation(_))));
}

#[test]
fn transfers_progress_and_completion() {
    let mut fm = FileTransferManager::new(alpha());
    fm.create_outgoing_transfer(
        String::from("t-2"),
        "user-87654321",
        "192.168.1.11",
        String::from("a.bin"),
        100,
        String::from("/tmp/a.bin"),
        2000,
    );
    let accepted = fm.accept_transfer("t-2", "/tmp/b.bin").unwrap();
    assert_eq!(accepted.status, TransferStatus::InProgress);
    assert_eq!(accepted.destination_path.as_deref(), Some("/tmp/b.bin"));
    assert_eq!(fm.record_chunk("t-2", 60).unwrap(), TransferStatus::InProgress);
    assert_eq!(fm.record_chunk("t-2", 40).unwrap(), TransferStatus::Completed);
    let done = &fm.get_all_transfers()[0];
    assert_eq!(done.bytes_transferred, 100);
    assert_eq!(done.status, TransferStatus::Completed);
    // a finished transfer is immutable
    assert!(matches!(fm.record_chunk("t-2", 1), Err(AppError::InvalidOperation(_))));
    assert!(matches!(fm.cancel_transfer("t-2"), Err(AppError::InvalidOperation(_))));
}

#[test]
fn transfers_single_chunk_completes_in_one_step() {
    let mut fm = FileTransferManager::new(alpha());
    fm.create_outgoing_transfer(
        String::from("t-3"),
        "user-87654321",
        "192.168.1.11",
        String::from("a.bin"),
        65536,
        String::from("/tmp/a.bin"),
        2000,
    );
    fm.accept_transfer("t-3", "/tmp/b.bin").unwrap();
    assert_eq!(fm.record_chunk("t-3", 65536).unwrap(), TransferStatus::Completed);
}

#[test]
fn transfers_empty_file_completes_at_end_of_stream() {
    let mut fm = FileTransferManager::new(alpha());
    fm.create_outgoing_transfer(
        String::from("t-4"),
        "user-87654321",
        "192.168.1.11",
        String::from("empty.bin"),
        0,
        String::from("/tmp/empty.bin"),
        2000,
    );
    fm.accept_transfer("t-4", "/tmp/b.bin").unwrap();
    assert_eq!(fm.finish_stream("t-4").unwrap(), TransferStatus::Completed);
}

#[test]
fn transfers_short_stream_fails() {
    let mut fm = FileTransferManager::new(alpha());
    fm.create_outgoing_transfer(
        String::from("t-5"),
        "user-87654321",
        "192.168.1.11",
        String::from("a.bin"),
        100,
        String::from("/tmp/a.bin"),
        2000,
    );
    fm.accept_transfer("t-5", "/tmp/b.bin").unwrap();
    fm.record_chunk("t-5", 10).unwrap();
    assert_eq!(fm.finish_stream("t-5").unwrap(), TransferStatus::Failed);
    let t = &fm.get_all_transfers()[0];
    assert!(t.error.is_some());
}

#[test]
fn transfers_overshoot_fails_cleanly() {
    let mut fm = FileTransferManager::new(alpha());
    fm.create_outgoing_transfer(
        String::from("t-6"),
        "user-87654321",
        "192.168.1.11",
        String::from("a.bin"),
        100,
        String::from("/tmp/a.bin"),
        2000,
    );
    fm.accept_transfer("t-6", "/tmp/b.bin").unwrap();
    assert_eq!(fm.record_chunk("t-6", 101).unwrap(), TransferStatus::Failed);
    let t = &fm.get_all_transfers()[0];
    assert!(t.bytes_transferred <= t.file_size);
}

#[test]
fn transfers_notify_target_picks_other_side() {
    let fm = FileTransferManager::new(alpha());
    let mut fm2 = FileTransferManager::new(alpha());
    let t = fm2.create_outgoing_transfer(
        String::from("t-7"),
        "user-87654321",
        "192.168.1.11",
        String::from("a.bin"),
        1,
        String::from("/tmp/a.bin"),
        2000,
    );
    // we are the sender: notify the recipient
    assert_eq!(fm.notify_target_ip(&t).unwrap(), "192.168.1.11");
    // the mirror on the other side notifies the sender
    let fm3 = FileTransferManager::new(beta());
    assert_eq!(fm3.notify_target_ip(&t).unwrap(), "192.168.1.10");
    // a missing address is the transfer-precondition error
    let mut no_ip = t.clone();
    no_ip.recipient_ip = None;
    assert!(matches!(fm.notify_target_ip(&no_ip), Err(AppError::FileTransferError(_))));
}

#[test]
fn transfers_filtered_by_peer() {
    let mut fm = FileTransferManager::new(alpha());
    fm.create_outgoing_transfer(
        String::from("t-8"),
        "user-87654321",
        "192.168.1.11",
        String::from("a.bin"),
        1,
        String::from("/tmp/a.bin"),
        2000,
    );
    fm.create_outgoing_transfer(
        String::from("t-9"),
        "user-00000000",
        "192.168.1.12",
        String::from("b.bin"),
        1,
        String::from("/tmp/b.bin"),
        2000,
    );
    assert_eq!(fm.get_transfers_for_peer("user-87654321").len(), 1);
    assert_eq!(fm.get_transfers_for_peer("user-00000000").len(), 1);
    assert_eq!(fm.get_transfers_for_peer("user-unrelated").len(), 0);
    assert_eq!(fm.get_all_transfers().len(), 2);
}

#[test]
fn discovery_stop_when_stopped_changes_nothing() {
    let mut d = NetworkDiscovery::new(alpha());
    // a record sits in the directory while nothing is running
    d.upsert_discovered_peer(beta(), None, 1000);
    assert!(!d.is_running);
    // stopping a stopped node is a no-op: same entries, same flags
    assert!(d.stop_discovery().is_ok());
    assert_eq!(d.peers.len(), 1);
    assert!(!d.is_running && !d.service_registered);
}

#[test]
fn mdns_retry_policy() {
    assert_eq!(ip_chat::discovery::mdns_retry_decision(1, "bind failed").unwrap(), 1000);
    assert_eq!(ip_chat::discovery::mdns_retry_decision(2, "bind failed").unwrap(), 2000);
    match ip_chat::discovery::mdns_retry_decision(3, "bind failed") {
        Err(AppError::MdnsError(m)) => {
            assert_eq!(m, "Failed to create mDNS daemon after 3 attempts: bind failed");
        },
        _ => panic!("the third failure must give up with the mDNS error"),
    }
}

#[test]
fn chat_sort_is_stable_for_equal_timestamps() {
    let mut chat = ChatManager::new(alpha());
    // two outbound and one inbound record, all stamped alike
    chat.send_message(String::from("m-a"), "user-87654321", "first sent", 3000);
    chat.send_message(String::from("m-b"), "user-87654321", "second sent", 3000);
    let incoming = ip_chat::models::Message {
        id: String::from("m-c"),
        sender_id: String::from("user-87654321"),
        recipient_id: String::from("user-12345678"),
        content: String::from("received"),
        timestamp: 3000,
        read: false,
    };
    chat.handle_incoming_message(incoming);
    // equal timestamps keep their order: our stream first, in
    // insertion order, then theirs
    let conv = chat.get_messages_for_peer("user-87654321");
    assert_eq!(conv.len(), 3);
    assert_eq!(conv[0].content, "first sent");
    assert_eq!(conv[1].content, "second sent");
    assert_eq!(conv[2].content, "received");
}

#[test]
fn inbound_responses_and_unknowns_are_ignored_without_reply() {
    let cm = ConnectionManager::new(alpha());
    let resp = ip_chat::protocol::encode_heartbeat_response(77);
    assert!(matches!(cm.handle_incoming_envelope(&resp, 1), InboundAction::Ignore));
    assert!(matches!(cm.handle_incoming_envelope("{\"type\":\"gossip\"}", 1), InboundAction::Ignore));
    // a message for someone else is dropped, not delivered
    let foreign = ip_chat::models::Message {
        id: String::from("m-f"),
        sender_id: String::from("user-87654321"),
        recipient_id: String::from("user-99999999"),
        content: String::from("not ours"),
        timestamp: 1700000000,
        read: false,
    };
    let wire = ip_chat::protocol::encode_message_envelope(&foreign);
    assert!(matches!(cm.handle_incoming_envelope(&wire, 1), InboundAction::Ignore));
}
