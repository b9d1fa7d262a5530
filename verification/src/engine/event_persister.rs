//! What the store keeps of each engine event.
use vstd::prelude::*;
use crate::database::{FileTaskRecord, MessageRecord, PeerRecord};
use crate::types::{opt_view, CoreEvent, Progress, TransferStatus, LOCAL_USER_IDENTIFIER};

verus! {

/// The chat line stored for a received window knock.
pub const KNOCK_RECEIVED_CONTENT: &'static str = "* Received a window knock! 📳 *";

/// A write to the store.
#[derive(Debug, Clone)]
pub enum DbWrite {
    SavePeer(PeerRecord),
    SaveMessage(MessageRecord),
    UpdateTaskProgress { task_id: i64, progress: Progress, status: TransferStatus },
    CreateTask(FileTaskRecord),
}

/// Decides what the store keeps of engine events.
pub struct EventPersister;

/// A received message as stored: from its sender to the local user,
/// unread.
pub open spec fn is_received_message(r: MessageRecord, sender: Seq<char>, content: Seq<char>, timestamp: i64) -> bool {
    &&& r.id is None
    &&& r.sender_ip@ == sender
    &&& r.receiver_ip@ == LOCAL_USER_IDENTIFIER@
    &&& r.text_content@ == content
    &&& r.timestamp == timestamp
    &&& !r.is_read
}

fn received_message(sender_ip: &String, text: String, timestamp: i64) -> (res: MessageRecord)
    ensures
        is_received_message(res, sender_ip@, text@, timestamp),
{
    MessageRecord {
        id: None,
        sender_ip: sender_ip.clone(),
        receiver_ip: String::from_str(LOCAL_USER_IDENTIFIER),
        text_content: text,
        timestamp,
        is_read: false,
    }
}

/// The write kept of `event` at time `now` (milliseconds): a peer that
/// comes online is saved as seen then; a message is saved as received; a
/// window knock is saved as a received knock line stamped then; progress
/// updates its task; a started transfer creates its task as transferring,
/// stamped then. Nothing is kept of other events (and of a peer going
/// offline).
pub open spec fn planned_write(event: CoreEvent, now: i64, res: Option<DbWrite>) -> bool {
    match event {
        CoreEvent::PeerStatusChanged { ip, username, hostname, nickname, online } => if online {
            res matches Some(DbWrite::SavePeer(r)) && r.ip@ == ip@ && r.username@
                == username@ && r.hostname@ == hostname@ && opt_view(r.nickname) == opt_view(
                nickname,
            ) && r.avatar_id is None && r.last_seen == now
        } else {
            res is None
        },
        CoreEvent::MessageReceived { sender_ip, content, timestamp, .. } => res matches Some(
            DbWrite::SaveMessage(r),
        ) && is_received_message(r, sender_ip@, content@, timestamp),
        CoreEvent::WindowKnock { sender_ip, .. } => res matches Some(DbWrite::SaveMessage(r))
            && is_received_message(r, sender_ip@, KNOCK_RECEIVED_CONTENT@, now),
        CoreEvent::TransferProgress { task_id, progress, status } => res matches Some(
            DbWrite::UpdateTaskProgress { task_id: t, progress: p, status: s },
        ) && t == task_id && p == progress && s == status,
        CoreEvent::TransferStarted { task_id, peer_ip, file_name, file_size, is_sending } =>
            res matches Some(DbWrite::CreateTask(r)) && r.id == Some(task_id)
            && r.file_name@ == file_name@ && r.file_size == file_size && r.peer_ip@
            == peer_ip@ && r.is_sending == is_sending && r.status
            == TransferStatus::Transferring && r.progress == (Progress { done: 0, of: 1 }) && r.timestamp == now,
        _ => res is None,
    }
}

impl EventPersister {
    /// The write for `event` at time `now_millis` (milliseconds since the
    /// epoch, as the caller read it): see `planned_write`.
    pub fn persist(&self, event: &CoreEvent, now_millis: i64) -> (res: Option<DbWrite>)
        ensures
            planned_write(*event, now_millis, res),
    {
        match event {
            CoreEvent::PeerStatusChanged { ip, username, hostname, nickname, online } => {
                if *online {
                    Some(
                        DbWrite::SavePeer(
                            PeerRecord {
                                ip: ip.clone(),
                                username: username.clone(),
                                hostname: hostname.clone(),
                                nickname: nickname.clone(),
                                avatar_id: None,
                                last_seen: now_millis,
                            },
                        ),
                    )
                } else {
                    None
                }
            },
            CoreEvent::MessageReceived { sender_ip, content, timestamp, .. } => {
                Some(DbWrite::SaveMessage(received_message(sender_ip, content.clone(), *timestamp)))
            },
            CoreEvent::WindowKnock { sender_ip, .. } => {
                Some(
                    DbWrite::SaveMessage(
                        received_message(sender_ip, String::from_str(KNOCK_RECEIVED_CONTENT), now_millis),
                    ),
                )
            },
            CoreEvent::TransferProgress { task_id, progress, status } => {
                Some(DbWrite::UpdateTaskProgress { task_id: *task_id, progress: *progress, status: *status })
            },
            CoreEvent::TransferStarted { task_id, peer_ip, file_name, file_size, is_sending } => {
                Some(
                    DbWrite::CreateTask(
                        FileTaskRecord {
                            id: Some(*task_id),
                            file_name: file_name.clone(),
                            file_size: *file_size,
                            peer_ip: peer_ip.clone(),
                            is_sending: *is_sending,
                            status: TransferStatus::Transferring,
                            progress: Progress { done: 0, of: 1 },
                            timestamp: now_millis,
                        },
                    ),
                )
            },
            _ => None,
        }
    }
}


/// The task stored for a started transfer is that transfer: its number,
/// file name, size, peer and direction (a peer fetching our file is stored
/// as sending, our download as receiving), under way with no progress,
/// stamped at the time given.
pub proof fn lemma_started_transfer_task(
    task_id: i64,
    peer_ip: String,
    file_name: String,
    file_size: i64,
    is_sending: bool,
    now: i64,
    res: Option<DbWrite>,
)
    requires
        planned_write(
            CoreEvent::TransferStarted { task_id, peer_ip, file_name, file_size, is_sending },
            now,
            res,
        ),
    ensures
        res matches Some(DbWrite::CreateTask(r)) && r.id == Some(task_id) && r.is_sending == is_sending
            && r.file_name@ == file_name@ && r.file_size == file_size && r.peer_ip@ == peer_ip@
            && r.status == TransferStatus::Transferring && r.progress == (Progress { done: 0, of: 1 })
            && r.timestamp == now,
{
}

} // verus!
