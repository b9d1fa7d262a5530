//! The engine's answers to front-end commands and to its own events: what
//! to send, what to store and what to download.
pub mod handlers;
pub mod event_persister;

pub use event_persister::EventPersister;
pub use handlers::{
    BroadcastPresenceHandler, DownloadFileHandler, RegisterSharedFileHandler, ScanSubnetHandler,
    SendKnockHandler, SendMessageHandler, ShareFileHandler, UpdateIdentityHandler,
};

use vstd::prelude::*;

verus! {

/// How to start an engine: the identity it announces, where it binds, and
/// the path of its store.
#[derive(Clone, Debug)]
pub struct EngineConfig {
    pub username: String,
    pub hostname: String,
    pub bind_ip: String,
    pub start_port: u16,
    pub db_path: String,
}

} // verus!
