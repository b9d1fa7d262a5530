use feiq_v2::database::MessageRecord;
use feiq_v2::engine::event_persister::{DbWrite, EventPersister};
use feiq_v2::engine::handlers::{SendKnockHandler, SendMessageHandler, UpdateIdentityHandler};
use feiq_v2::error::{AppError, NetworkError};
use feiq_v2::network::ack_tracker::{ack_step, AckCommand, AckOutcome, AckSignal, AckWait};
use feiq_v2::network::{
    AckTracker, FileRegistry, NetAction, NetworkEngine, PacketContext, PacketDispatcher,
    PeerDirectory, SendMsgHandler, SharedFile,
};
use feiq_v2::protocol::codec::IPMsgPacket;
use feiq_v2::protocol::{IPMSG_KNOCK, IPMSG_RECVMSG, IPMSG_SENDCHECKOPT, IPMSG_SENDMSG};
use feiq_v2::types::{CoreEvent, Progress, TransferStatus, LOCAL_USER_IDENTIFIER, NUDGE_MESSAGE_CONTENT};

fn alice() -> NetworkEngine {
    NetworkEngine::new("alice".to_string(), "alice-pc".to_string(), 1, 0)
}

fn loopback() -> PacketContext {
    PacketContext {
        peer_ip: "127.0.0.1".to_string(),
        ip_u32: 0x7F000001,
        my_username: "alice".to_string(),
        now_millis: 1_000,
    }
}

fn from_bob(packet_no: u32, cmd: u32, extra: &str) -> IPMsgPacket {
    IPMsgPacket {
        version: "1".to_string(),
        packet_no,
        username: "bob".to_string(),
        hostname: "bob-pc".to_string(),
        cmd,
        extra: extra.to_string(),
    }
}

fn saved_message(write: Option<DbWrite>) -> MessageRecord {
    match write {
        Some(DbWrite::SaveMessage(r)) => r,
        other => panic!("expected a saved message, got {:?}", other),
    }
}

#[test]
fn test_send_message_handler() {
    let mut engine = alice();
    engine.register_peer_port("192.168.1.100", 2425);
    let sent = SendMessageHandler.handle(
        &mut engine,
        "192.168.1.100",
        "Testing SendMessageHandler with Mocks!",
        1_700_000_000,
    );
    assert_eq!(sent.record.text_content, "Testing SendMessageHandler with Mocks!");
    assert_eq!(sent.record.receiver_ip, "192.168.1.100");
    assert_eq!(sent.record.sender_ip, "0.0.0.0");
    assert_eq!(sent.record.is_read, true);
    assert_eq!(sent.outgoing.to_ip, "192.168.1.100");
    assert_eq!(sent.outgoing.port, 2425);
    assert_eq!(sent.outgoing.packet.cmd, IPMSG_SENDMSG);
    assert_eq!(sent.outgoing.packet.extra, "Testing SendMessageHandler with Mocks!");
}

#[test]
fn test_update_identity_handler() {
    let mut engine = alice();
    let settings =
        UpdateIdentityHandler.handle(&mut engine, "new_alice".to_string(), "new_alice-pc".to_string());
    assert_eq!(settings[0], ("username".to_string(), "new_alice".to_string()));
    assert_eq!(settings[1], ("hostname".to_string(), "new_alice-pc".to_string()));
    assert_eq!(engine.get_username(), "new_alice");
    assert_eq!(engine.get_hostname(), "new_alice-pc");
}

#[test]
fn test_send_knock_handler() {
    let mut engine = alice();
    engine.register_peer_port("192.168.1.100", 2425);
    let sent = SendKnockHandler.handle(&mut engine, "192.168.1.100", 1_700_000_000);
    assert_eq!(sent.record.text_content, NUDGE_MESSAGE_CONTENT);
    assert_eq!(sent.record.receiver_ip, "192.168.1.100");
    assert_eq!(sent.record.sender_ip, "0.0.0.0");
    assert_eq!(sent.record.is_read, true);
    assert_eq!(sent.outgoing.to_ip, "192.168.1.100");
    assert_eq!(sent.outgoing.port, 2425);
    assert_eq!(sent.outgoing.packet.cmd, IPMSG_KNOCK);
    assert_eq!(sent.outgoing.packet.extra, "");
}

#[test]
fn test_send_msg_handler_no_ack() {
    let mut task = 0i64;
    let packet = from_bob(12345, IPMSG_SENDMSG, "Hello from Bob!");
    let actions = SendMsgHandler.handle(&loopback(), &packet, &mut task);
    assert_eq!(actions.len(), 1);
    match &actions[0] {
        NetAction::Emit(CoreEvent::MessageReceived { sender_ip, content, username, .. }) => {
            assert_eq!(sender_ip, "127.0.0.1");
            assert_eq!(content, "Hello from Bob!");
            assert_eq!(username, "bob");
        }
        other => panic!("unexpected {:?}", other),
    }
}

#[test]
fn test_send_msg_handler_with_ack() {
    let mut task = 0i64;
    let packet = from_bob(54321, IPMSG_SENDMSG | IPMSG_SENDCHECKOPT, "ACK message");
    let actions = SendMsgHandler.handle(&loopback(), &packet, &mut task);
    assert_eq!(actions.len(), 2);
    match &actions[0] {
        NetAction::Emit(CoreEvent::MessageReceived { content, .. }) => {
            assert_eq!(content, "ACK message")
        }
        other => panic!("unexpected {:?}", other),
    }
    match &actions[1] {
        NetAction::Send { to_ip, cmd, extra } => {
            assert_eq!(to_ip, "127.0.0.1");
            assert_eq!(*cmd, IPMSG_RECVMSG);
            assert_eq!(extra, "54321");
        }
        other => panic!("unexpected {:?}", other),
    }
}

#[test]
fn test_dispatch_sanitizes_untrusted_data() {
    let mut dispatcher = PacketDispatcher::new();
    let mut task = 0i64;
    let packet = IPMsgPacket {
        version: "1".to_string(),
        packet_no: 9999,
        username: format!("  {}  ", "u".repeat(100)),
        hostname: format!("  {}  ", "h".repeat(100)),
        cmd: IPMSG_SENDMSG,
        extra: "Malicious\x00control\x1Fchars\nand attachments".to_string(),
    };
    let ctx = PacketContext { ip_u32: 127 * 256 * 256 * 256 + 1, ..loopback() };
    let actions = dispatcher.dispatch(&ctx, packet, &mut task);
    let peers: Vec<_> = actions
        .iter()
        .filter_map(|a| match a {
            NetAction::Emit(CoreEvent::PeerStatusChanged { username, hostname, .. }) => {
                Some((username.clone(), hostname.clone()))
            }
            _ => None,
        })
        .collect();
    assert_eq!(peers.len(), 1);
    assert_eq!(peers[0].0.len(), 64);
    assert_eq!(peers[0].0, "u".repeat(64));
    assert_eq!(peers[0].1.len(), 64);
    assert_eq!(peers[0].1, "h".repeat(64));
    let messages: Vec<_> = actions
        .iter()
        .filter_map(|a| match a {
            NetAction::Emit(CoreEvent::MessageReceived { content, username, .. }) => {
                Some((content.clone(), username.clone()))
            }
            _ => None,
        })
        .collect();
    assert_eq!(messages.len(), 1);
    assert_eq!(messages[0].0, "Malicious");
    assert_eq!(messages[0].1, "u".repeat(64));
}

#[test]
fn test_ack_tracker_file_registry_peer_directory() {
    let mut peer_dir = PeerDirectory::new();
    peer_dir.upsert(0x7F000001, 2426);
    assert_eq!(peer_dir.get_port(0x7F000001), 2426);
    assert_eq!(peer_dir.get_port(0xC0A80101), 2425);

    let mut file_registry = FileRegistry::new();
    file_registry.register(
        12345,
        54321,
        SharedFile { path: "test.txt".to_string(), name: "test.txt".to_string(), size: 1000 },
    );
    let found = file_registry.lookup(12345, 54321);
    assert!(found.is_some());
    let found = found.unwrap();
    assert_eq!(found.name, "test.txt");
    assert_eq!(found.size, 1000);

    let mut ack_tracker: AckTracker<u32> = AckTracker::new();
    let (state, command) = ack_step(AckWait::SendingFirst, AckSignal::SendOk);
    assert_eq!(command, AckCommand::Wait);
    ack_tracker.track(100, 7);
    assert_eq!(ack_tracker.ack(100), Some(7));
    let (_, command) = ack_step(state, AckSignal::Acked);
    assert_eq!(command, AckCommand::Finish(AckOutcome::Acknowledged));
}

#[test]
fn test_typed_error_matching() {
    let err: AppError = NetworkError::SendTimeout.into();
    match &err {
        AppError::Network(NetworkError::SendTimeout) => {}
        _ => panic!("Expected Network(SendTimeout) variant"),
    }
    let err2: AppError = NetworkError::BindFailed("port busy".to_string()).into();
    match &err2 {
        AppError::Network(NetworkError::BindFailed(msg)) => assert_eq!(msg, "port busy"),
        _ => panic!("Expected Network(BindFailed) variant"),
    }
    let err3 = AppError::Other("test error".to_string());
    assert_eq!(err3.message(), "test error");
}

#[test]
fn test_persist_peer_status_changed_online() {
    let event = CoreEvent::PeerStatusChanged {
        ip: "192.168.1.5".to_string(),
        username: "bob".to_string(),
        hostname: "bob-pc".to_string(),
        nickname: Some("Bobby".to_string()),
        online: true,
    };
    match EventPersister.persist(&event, 1_700_000_000_000) {
        Some(DbWrite::SavePeer(peer)) => {
            assert_eq!(peer.ip, "192.168.1.5");
            assert_eq!(peer.username, "bob");
            assert_eq!(peer.hostname, "bob-pc");
            assert_eq!(peer.nickname, Some("Bobby".to_string()));
        }
        other => panic!("expected a saved peer, got {:?}", other),
    }
}

#[test]
fn test_persist_peer_status_changed_offline() {
    let event = CoreEvent::PeerStatusChanged {
        ip: "192.168.1.5".to_string(),
        username: "bob".to_string(),
        hostname: "bob-pc".to_string(),
        nickname: Some("Bobby".to_string()),
        online: false,
    };
    assert!(EventPersister.persist(&event, 1_700_000_000_000).is_none());
}

#[test]
fn test_persist_message_received() {
    let event = CoreEvent::MessageReceived {
        id: 0,
        sender_ip: "192.168.1.5".to_string(),
        content: "hello world".to_string(),
        timestamp: 123456789,
        username: "bob".to_string(),
    };
    let message = saved_message(EventPersister.persist(&event, 1_700_000_000_000));
    assert_eq!(message.sender_ip, "192.168.1.5");
    assert_eq!(message.receiver_ip, LOCAL_USER_IDENTIFIER);
    assert_eq!(message.text_content, "hello world");
    assert_eq!(message.timestamp, 123456789);
    assert!(!message.is_read);
}

#[test]
fn test_persist_window_knock() {
    let event =
        CoreEvent::WindowKnock { sender_ip: "192.168.1.5".to_string(), username: "bob".to_string() };
    let message = saved_message(EventPersister.persist(&event, 1_700_000_000_000));
    assert_eq!(message.sender_ip, "192.168.1.5");
    assert_eq!(message.text_content, "* Received a window knock! 📳 *");
    assert!(!message.is_read);
}

#[test]
fn test_persist_transfer_lifecycle() {
    let start = CoreEvent::TransferStarted {
        task_id: 42,
        peer_ip: "192.168.1.5".to_string(),
        file_name: "test.txt".to_string(),
        file_size: 1024,
        is_sending: false,
    };
    match EventPersister.persist(&start, 1_700_000_000_000) {
        Some(DbWrite::CreateTask(task)) => {
            assert_eq!(task.id, Some(42));
            assert_eq!(task.status, TransferStatus::Transferring);
            assert_eq!(task.progress, Progress { done: 0, of: 1 });
        }
        other => panic!("expected a new task, got {:?}", other),
    }
    let halfway =
        CoreEvent::TransferProgress { task_id: 42, progress: Progress { done: 512, of: 1024 }, status: TransferStatus::Transferring };
    match EventPersister.persist(&halfway, 1_700_000_000_000) {
        Some(DbWrite::UpdateTaskProgress { task_id, progress, status }) => {
            assert_eq!(task_id, 42);
            assert_eq!(status, TransferStatus::Transferring);
            assert_eq!(progress, Progress { done: 512, of: 1024 });
        }
        other => panic!("expected a progress update, got {:?}", other),
    }
    let done =
        CoreEvent::TransferProgress { task_id: 42, progress: Progress { done: 1, of: 1 }, status: TransferStatus::Completed };
    match EventPersister.persist(&done, 1_700_000_000_000) {
        Some(DbWrite::UpdateTaskProgress { task_id, progress, status }) => {
            assert_eq!(task_id, 42);
            assert_eq!(status, TransferStatus::Completed);
            assert_eq!(progress, Progress { done: 1, of: 1 });
        }
        other => panic!("expected a progress update, got {:?}", other),
    }
}
