//! Core records of the node: users, chat messages and file transfers.
//!
//! Timestamps are Unix seconds (UTC). The wire format renders them as
//! RFC 3339 strings, which bounds the range a record may carry; the
//! well-formedness predicates state that bound.

use vstd::prelude::*;

verus! {

/// Last Unix second of year 9999, the latest instant the RFC 3339 wire
/// rendering covers.
pub const MAX_WIRE_TS: i64 = 253402300799;

/// A timestamp the wire format can carry.
pub open spec fn valid_ts(t: i64) -> bool {
    0 <= t <= MAX_WIRE_TS
}

/// A user on the network, as advertised over mDNS and kept in the peer
/// directory.
#[derive(Debug, PartialEq)]
pub struct User {
    /// Stable identifier of the user's device.
    pub id: String,
    /// Display name.
    pub name: String,
    /// Current IPv4/IPv6 address, as text.
    pub ip: String,
    /// When the user was last seen on the network (Unix seconds).
    pub last_seen: i64,
}

/// Mathematical image of a [`User`].
pub ghost struct UserV {
    pub id: Seq<char>,
    pub name: Seq<char>,
    pub ip: Seq<char>,
    pub last_seen: i64,
}

impl View for User {
    type V = UserV;

    open spec fn view(&self) -> UserV {
        UserV { id: self.id@, name: self.name@, ip: self.ip@, last_seen: self.last_seen }
    }
}

impl UserV {
    pub open spec fn wf(self) -> bool {
        valid_ts(self.last_seen)
    }
}

impl User {
    pub open spec fn wf(&self) -> bool {
        self@.wf()
    }
}

/// A chat message. Immutable after creation except the read flag,
/// which flips false to true on the recipient's side only.
#[derive(Debug, PartialEq)]
pub struct Message {
    /// Unique identifier, generated at send time.
    pub id: String,
    /// Identifier of the sender.
    pub sender_id: String,
    /// Identifier of the recipient.
    pub recipient_id: String,
    /// The text carried.
    pub content: String,
    /// When the message was sent (Unix seconds).
    pub timestamp: i64,
    /// Whether the recipient has read the message.
    pub read: bool,
}

/// Mathematical image of a [`Message`].
pub ghost struct MessageV {
    pub id: Seq<char>,
    pub sender_id: Seq<char>,
    pub recipient_id: Seq<char>,
    pub content: Seq<char>,
    pub timestamp: i64,
    pub read: bool,
}

impl View for Message {
    type V = MessageV;

    open spec fn view(&self) -> MessageV {
        MessageV {
            id: self.id@,
            sender_id: self.sender_id@,
            recipient_id: self.recipient_id@,
            content: self.content@,
            timestamp: self.timestamp,
            read: self.read,
        }
    }
}

impl MessageV {
    pub open spec fn wf(self) -> bool {
        valid_ts(self.timestamp)
    }
}

impl Message {
    pub open spec fn wf(&self) -> bool {
        self@.wf()
    }
}

/// Status of a file transfer. Completed, Rejected, Cancelled and
/// Failed are terminal: a record never leaves them.
#[derive(Debug, Clone, Copy, PartialEq, Eq, Structural)]
pub enum TransferStatus {
    /// Waiting for the recipient to accept.
    Pending,
    /// Accepted; bytes are moving.
    InProgress,
    /// Every byte arrived.
    Completed,
    /// The recipient declined.
    Rejected,
    /// Either side cancelled before completion.
    Cancelled,
    /// An I/O or protocol error stopped the transfer.
    Failed,
}

impl TransferStatus {
    /// The four states a transfer never leaves.
    pub open spec fn is_terminal(self) -> bool {
        self == TransferStatus::Completed || self == TransferStatus::Rejected
            || self == TransferStatus::Cancelled || self == TransferStatus::Failed
    }
}

/// The full state of a file transfer, visible on both sides.
#[derive(Debug, PartialEq)]
pub struct FileTransfer {
    /// Unique identifier of the transfer.
    pub id: String,
    /// Identifier of the sending user.
    pub sender_id: String,
    /// Identifier of the receiving user.
    pub recipient_id: String,
    /// Address of the sender, if known.
    pub sender_ip: Option<String>,
    /// Address of the recipient, if known.
    pub recipient_ip: Option<String>,
    /// Name of the file, without directories.
    pub file_name: String,
    /// Size of the file in bytes.
    pub file_size: u64,
    /// Where the file lives on the sender's machine.
    pub source_path: Option<String>,
    /// Where the file is written on the recipient's machine; set on
    /// accept.
    pub destination_path: Option<String>,
    /// Current state of the transfer.
    pub status: TransferStatus,
    /// How many bytes have moved so far.
    pub bytes_transferred: u64,
    /// When the transfer was initiated (Unix seconds).
    pub timestamp: i64,
    /// What went wrong, when status is Failed.
    pub error: Option<String>,
}

/// Mathematical image of a [`FileTransfer`].
pub ghost struct FileTransferV {
    pub id: Seq<char>,
    pub sender_id: Seq<char>,
    pub recipient_id: Seq<char>,
    pub sender_ip: Option<Seq<char>>,
    pub recipient_ip: Option<Seq<char>>,
    pub file_name: Seq<char>,
    pub file_size: u64,
    pub source_path: Option<Seq<char>>,
    pub destination_path: Option<Seq<char>>,
    pub status: TransferStatus,
    pub bytes_transferred: u64,
    pub timestamp: i64,
    pub error: Option<Seq<char>>,
}

impl Clone for User {
    fn clone(&self) -> (r: Self)
        ensures
            r == *self,
    {
        User {
            id: self.id.clone(),
            name: self.name.clone(),
            ip: self.ip.clone(),
            last_seen: self.last_seen,
        }
    }
}

impl Clone for Message {
    fn clone(&self) -> (r: Self)
        ensures
            r == *self,
    {
        Message {
            id: self.id.clone(),
            sender_id: self.sender_id.clone(),
            recipient_id: self.recipient_id.clone(),
            content: self.content.clone(),
            timestamp: self.timestamp,
            read: self.read,
        }
    }
}

/// Clones an optional string, keeping its view.
pub fn clone_opt_string(o: &Option<String>) -> (r: Option<String>)
    ensures
        r == *o,
{
    match o {
        Option::Some(s) => Option::Some(s.clone()),
        Option::None => Option::None,
    }
}

impl Clone for FileTransfer {
    fn clone(&self) -> (r: Self)
        ensures
            r == *self,
    {
        FileTransfer {
            id: self.id.clone(),
            sender_id: self.sender_id.clone(),
            recipient_id: self.recipient_id.clone(),
            sender_ip: clone_opt_string(&self.sender_ip),
            recipient_ip: clone_opt_string(&self.recipient_ip),
            file_name: self.file_name.clone(),
            file_size: self.file_size,
            source_path: clone_opt_string(&self.source_path),
            destination_path: clone_opt_string(&self.destination_path),
            status: self.status,
            bytes_transferred: self.bytes_transferred,
            timestamp: self.timestamp,
            error: clone_opt_string(&self.error),
        }
    }
}

pub open spec fn opt_str_view(o: Option<String>) -> Option<Seq<char>> {
    match o {
        Option::Some(s) => Option::Some(s@),
        Option::None => Option::None,
    }
}

impl View for FileTransfer {
    type V = FileTransferV;

    open spec fn view(&self) -> FileTransferV {
        FileTransferV {
            id: self.id@,
            sender_id: self.sender_id@,
            recipient_id: self.recipient_id@,
            sender_ip: opt_str_view(self.sender_ip),
            recipient_ip: opt_str_view(self.recipient_ip),
            file_name: self.file_name@,
            file_size: self.file_size,
            source_path: opt_str_view(self.source_path),
            destination_path: opt_str_view(self.destination_path),
            status: self.status,
            bytes_transferred: self.bytes_transferred,
            timestamp: self.timestamp,
            error: opt_str_view(self.error),
        }
    }
}

impl FileTransferV {
    /// Progress never exceeds the file size, completion means every
    /// byte moved, and the timestamp is renderable.
    pub open spec fn wf(self) -> bool {
        &&& valid_ts(self.timestamp)
        &&& self.bytes_transferred <= self.file_size
        &&& self.status == TransferStatus::Completed ==> self.bytes_transferred
            == self.file_size
    }
}

impl FileTransfer {
    pub open spec fn wf(&self) -> bool {
        self@.wf()
    }
}

/// The closed set of event names the node emits to its UI collaborator.
#[derive(Debug, Clone, Copy, PartialEq, Eq, Structural)]
pub enum EventKind {
    PeerDiscovered,
    PeersUpdated,
    MessageReceived,
    MessageSent,
    MessagesRead,
    UserUpdated,
    FileTransferUpdate,
    FileTransfersUpdate,
}

impl EventKind {
    /// The wire name of the event, exactly as the UI layer subscribes
    /// to it.
    pub fn name(self) -> (r: &'static str)
        ensures
            r@ == self.spec_name(),
    {
        match self {
            EventKind::PeerDiscovered => "peer_discovered",
            EventKind::PeersUpdated => "peers_updated",
            EventKind::MessageReceived => "message_received",
            EventKind::MessageSent => "message_sent",
            EventKind::MessagesRead => "messages_read",
            EventKind::UserUpdated => "user_updated",
            EventKind::FileTransferUpdate => "file_transfer_update",
            EventKind::FileTransfersUpdate => "file_transfers_update",
        }
    }

    pub open spec fn spec_name(self) -> Seq<char> {
        match self {
            EventKind::PeerDiscovered => ("peer_discovered")@,
            EventKind::PeersUpdated => ("peers_updated")@,
            EventKind::MessageReceived => ("message_received")@,
            EventKind::MessageSent => ("message_sent")@,
            EventKind::MessagesRead => ("messages_read")@,
            EventKind::UserUpdated => ("user_updated")@,
            EventKind::FileTransferUpdate => ("file_transfer_update")@,
            EventKind::FileTransfersUpdate => ("file_transfers_update")@,
        }
    }
}

} // verus!
