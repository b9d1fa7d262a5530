use feiq_v2::engine::event_persister::{DbWrite, EventPersister};
use feiq_v2::engine::handlers::{
    BroadcastPresenceHandler, DownloadFileHandler, LocalFile, RegisterSharedFileHandler,
    ScanSubnetHandler, SendKnockHandler, SendMessageHandler, ShareFileHandler, UpdateIdentityHandler,
};
use feiq_v2::network::NetworkEngine;
use feiq_v2::protocol::{IPMSG_BR_ENTRY, IPMSG_FILEATTACHOPT, IPMSG_KNOCK, IPMSG_SENDMSG};
use feiq_v2::types::{CoreEvent, Progress, TransferStatus, LOCAL_USER_IDENTIFIER, NUDGE_MESSAGE_CONTENT};

fn engine() -> NetworkEngine {
    NetworkEngine::new("alice".to_string(), "alice-pc".to_string(), 100, 0)
}

#[test]
fn send_message_plan() {
    let mut e = engine();
    e.register_peer_port("10.0.0.2", 2426);
    let plan = SendMessageHandler.handle(&mut e, "10.0.0.2", "hello", 55);
    assert_eq!(plan.outgoing.port, 2426);
    assert_eq!(plan.outgoing.packet.packet_no, 100);
    assert_eq!(plan.outgoing.packet.cmd, IPMSG_SENDMSG);
    assert_eq!(plan.outgoing.packet.extra, "hello");
    assert_eq!(plan.record.sender_ip, "0.0.0.0");
    assert_eq!(plan.record.receiver_ip, "10.0.0.2");
    assert_eq!(plan.record.timestamp, 55);
    assert!(plan.record.is_read);
    let knock = SendKnockHandler.handle(&mut e, "10.0.0.3", 56);
    assert_eq!(knock.outgoing.port, 2425);
    assert_eq!(knock.outgoing.packet.cmd, IPMSG_KNOCK);
    assert_eq!(knock.outgoing.packet.extra, "");
    assert_eq!(knock.outgoing.packet.packet_no, 101);
    assert_eq!(knock.record.text_content, NUDGE_MESSAGE_CONTENT);
}

#[test]
fn identity_and_registration() {
    let mut e = engine();
    let writes = UpdateIdentityHandler.handle(&mut e, "bob".to_string(), "bob-pc".to_string());
    assert_eq!(writes, vec![("username".to_string(), "bob".to_string()), ("hostname".to_string(), "bob-pc".to_string())]);
    assert_eq!(e.get_username(), "bob");
    let missing = LocalFile { exists: false, name: None, metadata: Err("none".to_string()) };
    assert_eq!(RegisterSharedFileHandler.handle(&mut e, "/nope", &missing), Err("File does not exist: /nope".to_string()));
    let file = LocalFile { exists: true, name: Some("a.txt".to_string()), metadata: Ok((10, 0)) };
    assert_eq!(RegisterSharedFileHandler.handle(&mut e, "/tmp/a.txt", &file), Ok(100));
}

#[test]
fn share_file_plan() {
    let mut e = engine();
    let file = LocalFile { exists: true, name: Some("a.txt".to_string()), metadata: Ok((2048, 16)) };
    let plan = ShareFileHandler.handle(&mut e, "10.0.0.2", "/tmp/a.txt", &file, 9).unwrap();
    assert_eq!(plan.task.id, Some(1));
    assert!(plan.task.is_sending);
    assert_eq!(plan.task.status, TransferStatus::Pending);
    assert_eq!(plan.outgoing.packet.packet_no, 101);
    assert_eq!(plan.outgoing.packet.cmd, IPMSG_SENDMSG | IPMSG_FILEATTACHOPT);
    assert_eq!(plan.outgoing.packet.extra, "Shared a file: a.txt (2.0 KB)\00:a.txt:800:10:1:\x07");
    assert_eq!(e.next_packet_no(), 102);
    let no_name = LocalFile { exists: true, name: None, metadata: Ok((1, 1)) };
    assert_eq!(ShareFileHandler.handle(&mut e, "h", "/", &no_name, 0).unwrap_err(), "Error: Invalid file name");
    let bad_meta = LocalFile { exists: true, name: Some("x".to_string()), metadata: Err("denied".to_string()) };
    assert_eq!(ShareFileHandler.handle(&mut e, "h", "/x", &bad_meta, 0).unwrap_err(), "Error reading metadata: denied");
}

#[test]
fn download_and_announcement_plans() {
    let mut e = engine();
    let plan = DownloadFileHandler.handle(&mut e, "10.0.0.2", 7, 0, "a.txt", 10, None, 3);
    assert_eq!(plan.download_dir, "downloads");
    assert_eq!(plan.task.id, Some(1));
    assert!(!plan.task.is_sending);
    assert_eq!(plan.request.task_id, 1);
    assert_eq!(plan.request.save_path, "a.txt");
    let (request, port) = e.download_request(&plan.request);
    assert_eq!(port, 2425);
    assert_eq!(request.extra, "7:0:0");
    let announce = BroadcastPresenceHandler.handle(&mut e, Some("192.168.3.4"));
    assert_eq!(announce.len(), 12);
    assert_eq!(announce[1].to_ip, "192.168.3.255");
    assert_eq!(announce[0].packet.cmd, IPMSG_BR_ENTRY);
    assert_eq!(announce[0].packet.extra, "alice");
    let scan = ScanSubnetHandler.handle(&mut e, "10.1.1");
    assert_eq!(scan.len(), 254);
    assert_eq!(scan[253].to_ip, "10.1.1.254");
}

#[test]
fn persister_plans() {
    let p = EventPersister;
    let online = CoreEvent::PeerStatusChanged {
        ip: "192.168.1.5".to_string(),
        username: "bob".to_string(),
        hostname: "bob-pc".to_string(),
        nickname: Some("Bobby".to_string()),
        online: true,
    };
    match p.persist(&online, 77) {
        Some(DbWrite::SavePeer(r)) => {
            assert_eq!(r.ip, "192.168.1.5");
            assert_eq!(r.nickname, Some("Bobby".to_string()));
            assert_eq!(r.last_seen, 77);
        }
        other => panic!("unexpected {:?}", other),
    }
    let offline = CoreEvent::PeerStatusChanged {
        ip: "192.168.1.5".to_string(),
        username: "bob".to_string(),
        hostname: "bob-pc".to_string(),
        nickname: None,
        online: false,
    };
    assert!(p.persist(&offline, 1).is_none());
    let msg = CoreEvent::MessageReceived {
        id: 0,
        sender_ip: "192.168.1.5".to_string(),
        content: "hello world".to_string(),
        timestamp: 123456789,
        username: "bob".to_string(),
    };
    match p.persist(&msg, 1) {
        Some(DbWrite::SaveMessage(r)) => {
            assert_eq!(r.receiver_ip, LOCAL_USER_IDENTIFIER);
            assert_eq!(r.timestamp, 123456789);
            assert!(!r.is_read);
        }
        other => panic!("unexpected {:?}", other),
    }
    let knock = CoreEvent::WindowKnock { sender_ip: "192.168.1.5".to_string(), username: "bob".to_string() };
    match p.persist(&knock, 5) {
        Some(DbWrite::SaveMessage(r)) => assert_eq!(r.text_content, "* Received a window knock! 📳 *"),
        other => panic!("unexpected {:?}", other),
    }
    let started = CoreEvent::TransferStarted {
        task_id: 42,
        peer_ip: "192.168.1.5".to_string(),
        file_name: "test.txt".to_string(),
        file_size: 1024,
        is_sending: false,
    };
    match p.persist(&started, 9) {
        Some(DbWrite::CreateTask(t)) => {
            assert_eq!(t.id, Some(42));
            assert_eq!(t.status, TransferStatus::Transferring);
            assert_eq!(t.progress, Progress { done: 0, of: 1 });
        }
        other => panic!("unexpected {:?}", other),
    }
    let progress = CoreEvent::TransferProgress { task_id: 42, progress: Progress { done: 1, of: 2 }, status: TransferStatus::Transferring };
    assert!(matches!(p.persist(&progress, 0), Some(DbWrite::UpdateTaskProgress { task_id: 42, progress: Progress { done: 1, of: 2 }, .. })));
    let typing = CoreEvent::PeerTyping { sender_ip: "x".to_string(), typing: true };
    assert!(p.persist(&typing, 0).is_none());
}
