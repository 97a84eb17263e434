//! Verified core of a LAN peer-to-peer chat and file-transfer node.
//!
//! The library holds the logic of the network subsystem: the peer
//! directory fed by mDNS events, the per-peer connection table with
//! heartbeat and idle pruning, the per-conversation message store, the
//! file-transfer state machine, and the JSON wire codec that all of
//! them speak over TCP. I/O itself (sockets, mDNS daemon, the clock)
//! lives outside; the functions here take the values those produce and
//! are verified for every such value.

pub mod chat;
pub mod codec;
pub mod connections;
pub mod discovery;
pub mod errors;
pub mod file_transfer;
pub mod identity;
pub mod json;
pub mod models;
pub mod protocol;
pub mod strutil;
pub mod timefmt;


use vstd::prelude::*;

use crate::chat::ChatManager;
use crate::connections::ConnectionManager;
use crate::discovery::NetworkDiscovery;
use crate::file_transfer::FileTransferManager;
use crate::models::User;

verus! {

/// The whole node: the local user and the four services' state.
pub struct AppState {
    /// The local user every component speaks for.
    pub local_user: User,
    /// Network discovery service.
    pub discovery: NetworkDiscovery,
    /// Chat manager.
    pub chat_manager: ChatManager,
    /// Connection manager for peer connections.
    pub connection_manager: ConnectionManager,
    /// File transfer manager.
    pub file_manager: FileTransferManager,
    /// Whether the I/O services have been brought up.
    pub services_initialized: bool,
}

impl AppState {
    /// Every component's invariant at once.
    pub open spec fn inv(&self) -> bool {
        &&& self.discovery.inv()
        &&& self.chat_manager.inv()
        &&& self.connection_manager.inv()
        &&& self.file_manager.inv()
        &&& self.discovery.local_user@ == self.local_user@
        &&& self.chat_manager.local_user@ == self.local_user@
        &&& self.connection_manager.local_user@ == self.local_user@
        &&& self.file_manager.local_user@ == self.local_user@
    }

    /// A fresh node around this user: everything empty, nothing
    /// started.
    pub fn new(local_user: User) -> (r: AppState)
        requires
            local_user.wf(),
        ensures
            r.inv(),
            r.local_user@ == local_user@,
            !r.services_initialized,
            !r.discovery.is_running,
            r.discovery.peers@.len() == 0,
            r.chat_manager.messages@.len() == 0,
            r.connection_manager.connections@.len() == 0,
            r.file_manager.transfers@.len() == 0,
    {
        AppState {
            local_user: local_user.clone(),
            discovery: NetworkDiscovery::new(local_user.clone()),
            chat_manager: ChatManager::new(local_user.clone()),
            connection_manager: ConnectionManager::new(local_user.clone()),
            file_manager: FileTransferManager::new(local_user),
            services_initialized: false,
        }
    }
}

} // verus!
