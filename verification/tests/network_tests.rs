use feiq_v2::error::AppError;
use feiq_v2::network::ack_tracker::{ack_step, AckCommand, AckOutcome, AckSignal, AckWait};
use feiq_v2::network::dir_stream::{
    format_dir_header, header_body_len, parse_dir_entry_body, parse_header_size, DirAction,
    DirDownload, DirEntryHeader,
};
use feiq_v2::network::discovery::{
    announce_plan, bind_address, bind_failure_text, bind_port_candidates, normalize_target_ip,
    subnet_broadcast_addrs, subnet_ips,
};
use feiq_v2::network::engine::start_packet_no;
use feiq_v2::network::peer_directory::{ip_to_u32, ipv4_to_string, parse_ipv4};
use feiq_v2::network::transfer::{CopyAction, CopySignal, TransferProgress};
use feiq_v2::network::{
    AckTracker, FileRegistry, NetAction, NetworkEngine, PacketContext, PacketDispatcher,
    PeerDirectory, SharedFile,
};
use feiq_v2::protocol::codec::IPMsgPacket;
use feiq_v2::protocol::{
    IPMSG_ANSENTRY, IPMSG_BR_ENTRY, IPMSG_BR_EXIT, IPMSG_FILE_DIR, IPMSG_FILE_REGULAR,
    IPMSG_FILE_RETPARENT, IPMSG_GETFILEDATA, IPMSG_RECVMSG, IPMSG_SENDCHECKOPT, IPMSG_SENDMSG,
};
use feiq_v2::types::{CoreEvent, Progress};

#[test]
fn peer_directory_ports() {
    let mut peer_dir = PeerDirectory::new();
    peer_dir.upsert(0x7F000001, 2426);
    assert_eq!(peer_dir.get_port(0x7F000001), 2426);
    assert_eq!(peer_dir.get_port(0xC0A80101), 2425);
    peer_dir.upsert_str("192.168.1.1", 2500);
    assert_eq!(peer_dir.get_port_str("192.168.1.1"), 2500);
    assert_eq!(peer_dir.get_port(0xC0A80101), 2500);
}

#[test]
fn ipv4_parsing() {
    assert_eq!(ip_to_u32("127.0.0.1"), 0x7F000001);
    assert_eq!(ip_to_u32("255.255.255.255"), 0xFFFF_FFFF);
    assert_eq!(ip_to_u32("01.2.3.4"), 0);
    assert_eq!(ip_to_u32("1.2.3"), 0);
    assert_eq!(ip_to_u32("256.1.1.1"), 0);
    assert_eq!(ip_to_u32("+1.2.3.4"), 0);
    assert_eq!(parse_ipv4("0.0.0.0"), Some(0));
    assert_eq!(parse_ipv4("localhost"), None);
    assert_eq!(ipv4_to_string(0xC0A8010A), "192.168.1.10");
}

#[test]
fn file_registry_lookup_orders() {
    let mut file_registry = FileRegistry::new();
    file_registry.register(
        12345,
        54321,
        SharedFile { path: "test.txt".to_string(), name: "test.txt".to_string(), size: 1000 },
    );
    let found = file_registry.lookup(12345, 54321).unwrap();
    assert_eq!(found.name, "test.txt");
    assert_eq!(found.size, 1000);
    assert!(file_registry.lookup(1, 2).is_none());
    let by_id = file_registry.lookup(999, 54321).unwrap();
    assert_eq!(by_id.path, "test.txt");
    let mut reg = FileRegistry::new();
    reg.register(10, 12, SharedFile { path: "a".to_string(), name: "a".to_string(), size: 1 });
    reg.register(16, 18, SharedFile { path: "b".to_string(), name: "b".to_string(), size: 2 });
    assert_eq!(reg.lookup(10, 12).unwrap().name, "b");
}

#[test]
fn discovery_targets() {
    let ips = subnet_ips("192.168.1.");
    assert_eq!(ips.len(), 254);
    assert_eq!(ips[0], "192.168.1.1");
    assert_eq!(ips[253], "192.168.1.254");
    assert_eq!(subnet_broadcast_addrs("10.0.0.7"), vec!["255.255.255.255", "10.0.0.255"]);
    assert_eq!(subnet_broadcast_addrs("0.0.0.0"), vec!["255.255.255.255"]);
    assert_eq!(subnet_broadcast_addrs("127.0.0.1"), vec!["255.255.255.255"]);
    let plan = announce_plan(&vec!["a".to_string(), "b".to_string()]);
    assert_eq!(plan.len(), 12);
    assert_eq!(plan[0], ("a".to_string(), 2425));
    assert_eq!(plan[1], ("b".to_string(), 2425));
    assert_eq!(plan[11], ("b".to_string(), 2430));
    assert_eq!(normalize_target_ip("0.0.0.0".to_string()), "127.0.0.1");
    assert_eq!(normalize_target_ip("10.1.1.1".to_string()), "10.1.1.1");
    assert_eq!(bind_address("  "), "0.0.0.0");
    assert_eq!(bind_address(" 10.0.0.1"), " 10.0.0.1");
    let ports = bind_port_candidates(2425);
    assert_eq!(ports.len(), 11);
    assert_eq!(ports[10], 2435);
    assert_eq!(
        bind_failure_text("0.0.0.0", 2425),
        "UDP/TCP socket binding failed on 0.0.0.0 for range 2425..=2435."
    );
}

fn ctx() -> PacketContext {
    PacketContext {
        peer_ip: "127.0.0.1".to_string(),
        ip_u32: 0x7F000001,
        my_username: "alice".to_string(),
        now_millis: 1000,
    }
}

fn packet(no: u32, cmd: u32, username: &str, extra: &str) -> IPMsgPacket {
    IPMsgPacket {
        version: "1".to_string(),
        packet_no: no,
        username: username.to_string(),
        hostname: "host".to_string(),
        cmd,
        extra: extra.to_string(),
    }
}

#[test]
fn dispatch_sanitizes_and_acknowledges_once() {
    let mut d = PacketDispatcher::new();
    let mut task = 1i64;
    let long_user = format!("  {}  ", "u".repeat(100));
    let p = packet(9999, IPMSG_SENDMSG | IPMSG_SENDCHECKOPT, &long_user, "Malicious\x00control\x1Fchars");
    let actions = d.dispatch(&ctx(), p.clone(), &mut task);
    assert_eq!(actions.len(), 3);
    match &actions[0] {
        NetAction::Emit(CoreEvent::PeerStatusChanged { username, online, .. }) => {
            assert_eq!(username, &"u".repeat(64));
            assert!(*online);
        }
        other => panic!("unexpected {:?}", other),
    }
    match &actions[1] {
        NetAction::Emit(CoreEvent::MessageReceived { content, timestamp, .. }) => {
            assert_eq!(content, "Malicious");
            assert_eq!(*timestamp, 1000);
        }
        other => panic!("unexpected {:?}", other),
    }
    match &actions[2] {
        NetAction::Send { to_ip, cmd, extra } => {
            assert_eq!(to_ip, "127.0.0.1");
            assert_eq!(*cmd, IPMSG_RECVMSG);
            assert_eq!(extra, "9999");
        }
        other => panic!("unexpected {:?}", other),
    }
    let again = d.dispatch(&ctx(), p, &mut task);
    assert_eq!(again.len(), 1);
    assert!(matches!(&again[0], NetAction::Send { cmd, .. } if *cmd == IPMSG_RECVMSG));
}

#[test]
fn dispatch_presence_and_acks() {
    let mut d = PacketDispatcher::new();
    let mut task = 1i64;
    let actions = d.dispatch(&ctx(), packet(1, IPMSG_BR_ENTRY, "bob", "  Bobby "), &mut task);
    assert_eq!(actions.len(), 2);
    match &actions[0] {
        NetAction::Emit(CoreEvent::PeerStatusChanged { nickname, .. }) => {
            assert_eq!(nickname.as_deref(), Some("Bobby"));
        }
        other => panic!("unexpected {:?}", other),
    }
    assert!(matches!(&actions[1], NetAction::Send { cmd, extra, .. } if *cmd == IPMSG_ANSENTRY && extra == "alice"));
    let answer = d.dispatch(&ctx(), packet(2, IPMSG_ANSENTRY, "bob", ""), &mut task);
    assert_eq!(answer.len(), 1);
    let bye = d.dispatch(&ctx(), packet(3, IPMSG_BR_EXIT, "bob", ""), &mut task);
    assert_eq!(bye.len(), 1);
    assert!(matches!(&bye[0], NetAction::Emit(CoreEvent::PeerStatusChanged { online: false, .. })));
    let ack = d.dispatch(&ctx(), packet(4, IPMSG_RECVMSG, "bob", " 77 "), &mut task);
    assert!(matches!(ack.last(), Some(NetAction::Ack(77))));
}

#[test]
fn dispatch_forgets_the_oldest_after_a_thousand() {
    let mut d = PacketDispatcher::new();
    let mut task = 1i64;
    for n in 0..1001u32 {
        d.dispatch(&ctx(), packet(n, 0xFF, "bob", ""), &mut task);
    }
    assert_eq!(d.dispatch(&ctx(), packet(0, 0xFF, "bob", "")   , &mut task).len(), 1);
    assert_eq!(d.dispatch(&ctx(), packet(1000, 0xFF, "bob", ""), &mut task).len(), 0);
}

#[test]
fn engine_counters_and_upload_requests() {
    assert_eq!(start_packet_no(10, 1), 100_010);
    let mut e = NetworkEngine::new("alice".to_string(), "pc".to_string(), u32::MAX, 41);
    assert_eq!(e.next_packet_no(), u32::MAX);
    assert_eq!(e.next_packet_no(), 0);
    assert_eq!(e.next_transfer_task_id(), 42);
    e.register_shared_file(5, 0, "/tmp/x".to_string(), "x".to_string(), 9);
    let request = e.outgoing_packet(6, IPMSG_GETFILEDATA, "5:0:10").serialize();
    let (details, event) = e.handle_tcp_upload_request("10.0.0.2", &request).unwrap();
    assert_eq!(details.file_path, "/tmp/x");
    assert_eq!(details.offset, 16);
    assert_eq!(details.task_id, 43);
    assert!(matches!(event, CoreEvent::TransferStarted { is_sending: true, .. }));
    let bad = e.outgoing_packet(6, IPMSG_SENDMSG, "5:0:0").serialize();
    let err = e.handle_tcp_upload_request("10.0.0.2", &bad).unwrap_err();
    assert!(matches!(err, AppError::Other(m) if m == "Unsupported TCP command: 32"));
    let missing = e.outgoing_packet(6, IPMSG_GETFILEDATA, "9:9:0").serialize();
    let err = e.handle_tcp_upload_request("10.0.0.2", &missing).unwrap_err();
    assert!(matches!(err, AppError::Other(m) if m == "Requested file not found in registry. packet_id: 9, file_id: 9"));
    let short = e.outgoing_packet(6, IPMSG_GETFILEDATA, "9").serialize();
    assert!(matches!(e.handle_tcp_upload_request("h", &short), Err(AppError::Other(m)) if m == "Malformed IPMSG_GETFILEDATA extra part: 9"));
    assert!(matches!(e.handle_tcp_upload_request("h", b"junk"), Err(AppError::Other(m)) if m == "Failed to parse IPMsg TCP packet"));
}

#[test]
fn engine_receive_counts_and_notes_ports() {
    let mut e = NetworkEngine::new("alice".to_string(), "pc".to_string(), 1, 0);
    let data = packet(3, IPMSG_BR_ENTRY, "bob", "").serialize();
    let actions = e.receive_datagram("10.0.0.9", 2426, 0x0A000009, false, &data, 5);
    assert_eq!(actions.len(), 2);
    assert_eq!(e.get_peer_port("10.0.0.9"), 2426);
    assert_eq!(e.stats().packets_received, 1);
    let none = e.receive_datagram("10.0.0.9", 2426, 0x0A000009, false, b"WAKEUP", 5);
    assert!(none.is_empty());
    assert_eq!(e.stats().errors, 1);
}

#[test]
fn ack_tracker_and_retry_steps() {
    let mut t: AckTracker<&str> = AckTracker::new();
    t.track(100, "first");
    t.track(100, "second");
    assert_eq!(t.ack(100), Some("second"));
    assert_eq!(t.ack(100), None);
    let (s, c) = ack_step(AckWait::SendingFirst, AckSignal::SendOk);
    assert_eq!((s, c), (AckWait::WaitingFirst, AckCommand::Wait));
    let (s, c) = ack_step(s, AckSignal::TimedOut);
    assert_eq!((s, c), (AckWait::SendingRetry, AckCommand::Retry));
    let (s, _) = ack_step(s, AckSignal::SendOk);
    let (s, c) = ack_step(s, AckSignal::TimedOut);
    assert_eq!((s, c), (AckWait::Done, AckCommand::GiveUp(AckOutcome::TimedOut)));
    assert_eq!(ack_step(AckWait::WaitingFirst, AckSignal::Acked).1, AckCommand::Finish(AckOutcome::Acknowledged));
    assert_eq!(ack_step(AckWait::SendingRetry, AckSignal::SendFailed).1, AckCommand::GiveUp(AckOutcome::SendFailed));
}

#[test]
fn dir_header_format_and_parse() {
    let h = format_dir_header("a:b", 0x10, IPMSG_FILE_REGULAR);
    assert_eq!(h, b"c:a::b:10:1:".to_vec());
    let h = format_dir_header(".", 0, IPMSG_FILE_RETPARENT);
    assert_eq!(h, b"8:.:0:3:".to_vec());
    let long = "n".repeat(8);
    let h = format_dir_header(&long, 0, 2);
    let text = String::from_utf8(h.clone()).unwrap();
    assert_eq!(text, format!("f:{}:0:2:", long));
    assert_eq!(h.len(), 15);
    let colon = h.iter().position(|b| *b == b':').unwrap();
    let size = parse_header_size(&h[..colon]).unwrap();
    assert_eq!(size, h.len());
    let body_len = header_body_len(size, colon);
    let entry = parse_dir_entry_body(&h[colon + 1..colon + 1 + body_len]).unwrap();
    assert_eq!(entry.name, long);
    assert_eq!(entry.attr, 2);
    assert!(parse_header_size(b"zz").is_err());
    assert!(parse_dir_entry_body(b"x:1:").is_err());
}

#[test]
fn dir_download_levels() {
    let mut d = DirDownload::new();
    let dir = DirEntryHeader { name: "top".to_string(), size: 0, attr: IPMSG_FILE_DIR };
    assert!(matches!(d.on_entry(dir, false), Ok(DirAction::EnterDir { .. })));
    assert_eq!(d.depth(), 2);
    assert!(d.on_eof().is_err());
    let up = DirEntryHeader { name: ".".to_string(), size: 0, attr: IPMSG_FILE_RETPARENT };
    assert!(matches!(d.on_entry(up.clone(), false), Ok(DirAction::LeaveDir)));
    assert!(matches!(d.on_entry(up, false), Ok(DirAction::Finish)));
    assert!(d.on_eof().is_ok());
    let odd = DirEntryHeader { name: "?".to_string(), size: 0, attr: 9 };
    assert!(matches!(d.on_entry(odd, false), Err(AppError::Other(m)) if m == "Unknown directory stream file_attr: 9"));
}

#[test]
fn nested_directory_stream_returns_to_save_directory() {
    let mut d = DirDownload::new();
    let entry = |name: &str, attr: u32| DirEntryHeader { name: name.to_string(), size: 3, attr };
    let stream = vec![
        entry("top", IPMSG_FILE_DIR),
        entry("a.txt", IPMSG_FILE_REGULAR),
        entry("sub", IPMSG_FILE_DIR),
        entry("b.txt", IPMSG_FILE_REGULAR),
        entry(".", IPMSG_FILE_RETPARENT),
        entry(".", IPMSG_FILE_RETPARENT),
    ];
    let mut depths = Vec::new();
    for e in stream {
        let action = d.on_entry(e, false).unwrap();
        assert!(!matches!(action, DirAction::Finish));
        depths.push(d.depth());
    }
    assert_eq!(depths, vec![2, 2, 3, 3, 2, 1]);
    assert!(d.on_eof().is_ok());
}

#[test]
fn transfer_progress_reports_each_percent() {
    let mut p = TransferProgress::new(1000, 0);
    assert_eq!(p.on_chunk(5), None);
    assert_eq!(p.on_chunk(5), Some(Progress { done: 10, of: 1000 }));
    assert_eq!(p.on_chunk(5), None);
    assert_eq!(p.failed_progress(), Progress { done: 15, of: 1000 });
    assert_eq!(p.completed_progress(), Progress { done: 1, of: 1 });
    let mut empty = TransferProgress::new(0, 0);
    assert_eq!(empty.on_chunk(1), Some(Progress { done: 1, of: 1 }));
    assert_eq!(empty.failed_progress(), Progress { done: 0, of: 1 });
}

#[test]
fn copy_steps_report_rising_percentages_then_complete() {
    let mut p = TransferProgress::new(200, 0);
    let mut reports = Vec::new();
    for n in [1u64, 1, 3, 50, 45, 100] {
        match p.step(CopySignal::Copied(n)) {
            CopyAction::Continue(Some(r)) => reports.push((r.done, r.of)),
            CopyAction::Continue(None) => {}
            other => panic!("unexpected {:?}", other),
        }
    }
    assert_eq!(reports, vec![(2, 200), (5, 200), (55, 200), (100, 200), (200, 200)]);
    assert_eq!(p.step(CopySignal::Ended), CopyAction::Complete(Progress { done: 1, of: 1 }));
}

#[test]
fn copy_stopped_before_reading_fails_at_the_start() {
    let mut p = TransferProgress::new(400, 100);
    assert_eq!(p.step(CopySignal::Stopped), CopyAction::Fail(Progress { done: 100, of: 400 }));
    let mut empty = TransferProgress::new(0, 0);
    assert_eq!(empty.step(CopySignal::Stopped), CopyAction::Fail(Progress { done: 0, of: 1 }));
    assert_eq!(empty.step(CopySignal::Failed), CopyAction::Fail(Progress { done: 0, of: 1 }));
}

#[test]
fn first_directory_named_like_the_save_directory_reuses_it() {
    let mut d = DirDownload::new();
    let top = DirEntryHeader { name: "photos".to_string(), size: 0, attr: IPMSG_FILE_DIR };
    assert!(matches!(d.on_entry(top.clone(), true), Ok(DirAction::EnterDir { reuse_save_dir: true, .. })));
    assert!(matches!(d.on_entry(top, true), Ok(DirAction::EnterDir { reuse_save_dir: false, .. })));
}

#[test]
fn engine_handles_a_redelivered_datagram_once() {
    let mut e = NetworkEngine::new("alice".to_string(), "pc".to_string(), 1, 0);
    let data = packet(8, IPMSG_SENDMSG | IPMSG_SENDCHECKOPT, "bob", "hi").serialize();
    let first = e.receive_datagram("10.0.0.9", 2425, 0x0A000009, false, &data, 5);
    assert_eq!(first.len(), 3);
    let again = e.receive_datagram("10.0.0.9", 2425, 0x0A000009, false, &data, 6);
    assert_eq!(again.len(), 1);
    assert!(matches!(&again[0], NetAction::Send { cmd, extra, .. } if *cmd == IPMSG_RECVMSG && extra == "8"));
}

fn float_percent(bytes: u64, size: u64) -> i32 {
    (bytes as f64 / size as f64 * 100.0) as i32
}

#[test]
fn progress_percent_follows_float_arithmetic() {
    let mut p = TransferProgress::new(100, 28);
    assert_eq!(p.on_chunk(1), None);
    assert_eq!(p.on_chunk(1), Some(Progress { done: 30, of: 100 }));
    let sizes = [3u64, 7, 100, 1000, 1023, 4097, 65_537, 1 << 40, (1 << 53) + 1, u64::MAX / 3, u64::MAX];
    let mut seed: u64 = 0x9E37_79B9_7F4A_7C15;
    for &size in sizes.iter() {
        for i in 0..2000u64 {
            seed = seed.wrapping_mul(6364136223846793005).wrapping_add(1442695040888963407);
            let b = if i % 2 == 0 { seed % (size.saturating_add(1)) } else { (size / 100).wrapping_mul(i % 101) };
            if b == u64::MAX {
                continue;
            }
            let mut t = TransferProgress::new(size, b);
            let reported = t.on_chunk(1).is_some();
            assert_eq!(reported, float_percent(b + 1, size) > float_percent(b, size), "size {} bytes {}", size, b);
        }
    }
    let mut big = TransferProgress::new(1, 0);
    assert_eq!(big.on_chunk(u64::MAX - 1), Some(Progress { done: u64::MAX - 1, of: 1 }));
}

#[test]
fn dir_entry_body_errors_name_their_cause() {
    let msg = |r: Result<DirEntryHeader, AppError>| match r {
        Err(AppError::Other(m)) => m,
        other => panic!("unexpected {:?}", other),
    };
    assert!(msg(parse_dir_entry_body(&[0xff, b':'])).starts_with("Invalid non-UTF-8 header body: "));
    assert_eq!(msg(parse_dir_entry_body(b"x:1:")), "Malformed directory entry header body: x:1:");
    assert!(msg(parse_dir_entry_body(b"x:1:zz:")).starts_with("Invalid file_attr hex: "));
    assert!(msg(parse_dir_entry_body(b"x:qq:1:")).starts_with("Invalid file_size hex: "));
    match parse_header_size(b"zz") {
        Err(AppError::Other(m)) => assert!(m.starts_with("Failed to parse header size hex 'zz': ")),
        other => panic!("unexpected {:?}", other),
    }
}

#[test]
fn ack_hands_out_the_waiter_of_its_number() {
    let mut t: AckTracker<&str> = AckTracker::new();
    t.track(1, "one");
    t.track(2, "two");
    t.track(1, "one again");
    assert_eq!(t.ack(2), Some("two"));
    assert_eq!(t.ack(2), None);
    t.remove(3);
    assert_eq!(t.ack(1), Some("one again"));
    t.track(4, "four");
    t.remove(4);
    assert_eq!(t.ack(4), None);
}
