//! The records that the engine keeps in its store.
use vstd::prelude::*;
use crate::types::{Progress, TransferStatus};

verus! {

/// A peer as last seen.
#[derive(Debug, Clone)]
pub struct PeerRecord {
    pub ip: String,
    pub username: String,
    pub hostname: String,
    pub nickname: Option<String>,
    pub avatar_id: Option<String>,
    pub last_seen: i64,
}

/// A chat message, sent or received. The local node is written as
/// `0.0.0.0` when it sends and as `me` when it receives.
#[derive(Debug, Clone)]
pub struct MessageRecord {
    pub id: Option<i64>,
    pub sender_ip: String,
    pub receiver_ip: String,
    pub text_content: String,
    pub timestamp: i64,
    pub is_read: bool,
}

/// A file transfer.
#[derive(Debug, Clone)]
pub struct FileTaskRecord {
    pub id: Option<i64>,
    pub file_name: String,
    pub file_size: i64,
    pub peer_ip: String,
    pub is_sending: bool,
    pub status: TransferStatus,
    pub progress: Progress,
    pub timestamp: i64,
}

} // verus!
