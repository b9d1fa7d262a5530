use feiq_v2::cli::{parse_cli_line, render_event_lines, resolve_name, CliInput};
use feiq_v2::types::{CoreCommand, CoreEvent, FileAttachment, Progress, TransferStatus};

#[test]
fn prompt_lines() {
    assert!(matches!(parse_cli_line("   "), CliInput::Empty));
    assert!(matches!(parse_cli_line("?"), CliInput::Help));
    assert!(matches!(parse_cli_line(" quit "), CliInput::Exit));
    match parse_cli_line("send 10.0.0.2  hello   big world") {
        CliInput::Run(CoreCommand::SendMessage { to_ip, content }) => {
            assert_eq!(to_ip, "10.0.0.2");
            assert_eq!(content, "hello big world");
        }
        other => panic!("unexpected {:?}", other),
    }
    match parse_cli_line("download 10.0.0.2 7 x a.txt +12") {
        CliInput::Run(CoreCommand::DownloadFile { packet_no, file_id, name, size, .. }) => {
            assert_eq!(packet_no, 7);
            assert_eq!(file_id, 0);
            assert_eq!(name, "a.txt");
            assert_eq!(size, 12);
        }
        other => panic!("unexpected {:?}", other),
    }
    match parse_cli_line("scan") {
        CliInput::Usage(u) => assert_eq!(u, "Usage: scan <subnet> (e.g. scan 192.168.1)"),
        other => panic!("unexpected {:?}", other),
    }
    match parse_cli_line("dance now") {
        CliInput::Unknown(w) => assert_eq!(w, "dance"),
        other => panic!("unexpected {:?}", other),
    }
}

#[test]
fn names_fall_back_in_order() {
    assert_eq!(resolve_name(None, None, Some("env2".to_string()), "cli_user"), "env2");
    assert_eq!(resolve_name(Some("me".to_string()), Some("env".to_string()), None, "cli_user"), "me");
    assert_eq!(resolve_name(None, None, None, "cli_user"), "cli_user");
}

#[test]
fn event_lines() {
    let lines = render_event_lines(&CoreEvent::TransferProgress {
        task_id: -3,
        progress: Progress { done: 101, of: 200 },
        status: TransferStatus::Transferring,
    });
    assert_eq!(lines, vec!["\n[EVENT] Task -3: Progress 50.5% [transferring]".to_string()]);
    let f = FileAttachment {
        id: 2,
        name: "a.txt".to_string(),
        size: 10,
        mtime: 0,
        file_type: 1,
        progress: Progress { done: 0, of: 1 },
        status: TransferStatus::Pending,
    };
    let lines = render_event_lines(&CoreEvent::FileAttachmentsReceived {
        sender_ip: "10.0.0.2".to_string(),
        packet_no: 7,
        files: vec![f],
    });
    assert_eq!(
        lines,
        vec![
            "\n[FILE RECEIVED] From 10.0.0.2:".to_string(),
            "  - Name: a.txt, Size: 10, ID: 2, Packet No: 7".to_string(),
            "  To download, type: download 10.0.0.2 7 <file_id> <file_name> <file_size>".to_string(),
        ]
    );
    let line = |p: Progress| {
        render_event_lines(&CoreEvent::TransferProgress { task_id: 1, progress: p, status: TransferStatus::Failed })
            .remove(0)
    };
    let float_line = |d: u64, o: u64| format!("\n[EVENT] Task 1: Progress {:.1}% [failed]", (d as f64 / o as f64) * 100.0);
    for (d, o) in [(1u64, 3u64), (2, 3), (1, 8), (9995, 10000), (29, 100), (0, 5), (7, 7), (u64::MAX, 1), (1, u64::MAX), (5, 0), (0, 0), (123_456_789, 1_000)] {
        assert_eq!(line(Progress { done: d, of: o }), float_line(d, o), "{} of {}", d, o);
    }
    let typing = render_event_lines(&CoreEvent::PeerTyping { sender_ip: "x".to_string(), typing: false });
    assert!(typing.is_empty());
}

#[test]
fn progress_text_matches_float_formatting() {
    let mut seed: u64 = 0x2545_F491_4F6C_DD1D;
    let mut next = || {
        seed ^= seed << 13;
        seed ^= seed >> 7;
        seed ^= seed << 17;
        seed
    };
    for i in 0..20_000u32 {
        let (d, o) = match i % 4 {
            0 => (next() % 1000, 1 + next() % 1000),
            1 => (next() >> (next() % 64), 1 + (next() >> (next() % 64))),
            2 => {
                let o = 1 + next() % 100_000;
                (next() % (o + 1), o)
            }
            _ => (next(), 1 + next() % 8),
        };
        let lines = render_event_lines(&CoreEvent::TransferProgress {
            task_id: 0,
            progress: Progress { done: d, of: o },
            status: TransferStatus::Transferring,
        });
        let expected = format!("\n[EVENT] Task 0: Progress {:.1}% [transferring]", (d as f64 / o as f64) * 100.0);
        assert_eq!(lines[0], expected, "{} of {}", d, o);
    }
}
