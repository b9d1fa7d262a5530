use feiq_v2::network::peer_directory::ip_to_u32;
use feiq_v2::types::{CoreCommand, CoreEvent, FileAttachment, Progress, TransferStatus, NUDGE_MESSAGE_CONTENT};
use feiq_v2::ui::app_state::{ActiveTab, AppState, Peer, Theme};
use feiq_v2::ui::views::{file_card_click, peer_status_color, Rgb};

fn ip(s: &str) -> u32 {
    ip_to_u32(s)
}

#[test]
fn test_toggle_settings_hides_middle_column() {
    let mut state = AppState::default();
    assert!(!state.settings_active);
    state.settings_active = true;
    assert!(state.settings_active);
}

#[test]
fn test_modify_identity_and_preferences() {
    let mut state = AppState::default();
    state.identity.username = "test_user_mod".to_string();
    state.identity.hostname = "HOST-MOD".to_string();
    state.identity.nickname = "New Nickname".to_string();
    state.identity.signature = "New Signature".to_string();

    assert_eq!(state.identity.username, "test_user_mod");
    assert_eq!(state.identity.hostname, "HOST-MOD");
    assert_eq!(state.identity.nickname, "New Nickname");
    assert_eq!(state.identity.signature, "New Signature");

    assert_eq!(state.preferences.theme, Theme::Dark);
    state.preferences.theme = Theme::Light;
    assert_eq!(state.preferences.theme, Theme::Light);
}

#[test]
fn test_modify_networking_subnets() {
    let mut state = AppState::default();
    assert_eq!(state.networking.broadcast_subnets.len(), 2);

    let custom_cidr = "172.16.128.255/18".to_string();
    state.networking.broadcast_subnets.push(custom_cidr.clone());
    assert_eq!(state.networking.broadcast_subnets.len(), 3);
    assert_eq!(
        state
            .networking
            .broadcast_subnets
            .last()
            .expect("at least one subnet should exist"),
        &custom_cidr
    );

    state.networking.broadcast_subnets.remove(0);
    assert_eq!(state.networking.broadcast_subnets.len(), 2);
    assert!(!state
        .networking
        .broadcast_subnets
        .contains(&"192.168.1.255".to_string()));
}

#[test]
fn test_select_peer_from_discovery_switches_back_to_chats() {
    let mut state = AppState::default();
    state.active_tab = ActiveTab::Friends;
    state.settings_active = true;

    let charlie_ip = ip("10.0.0.15");
    state.selected_peer_ip = Some(charlie_ip);
    state.active_tab = ActiveTab::Chats;
    state.settings_active = false;

    assert_eq!(state.active_tab, ActiveTab::Chats);
    assert!(!state.settings_active);
    assert_eq!(state.selected_peer_ip, Some(charlie_ip));
}

#[test]
fn test_system_tray_and_notification_settings_mutation() {
    let mut state = AppState::default();

    assert!(state.preferences.enable_system_tray);
    assert!(!state.preferences.minimize_to_tray_on_close);
    assert!(state.preferences.desktop_notifications_enabled);
    assert!(!state.minimized_to_tray);

    state.preferences.enable_system_tray = false;
    state.preferences.minimize_to_tray_on_close = true;
    state.preferences.desktop_notifications_enabled = false;
    state.minimized_to_tray = true;

    assert!(!state.preferences.enable_system_tray);
    assert!(state.preferences.minimize_to_tray_on_close);
    assert!(!state.preferences.desktop_notifications_enabled);
    assert!(state.minimized_to_tray);
}

#[test]
fn test_navigation_tab_switching() {
    let mut state = AppState::default();
    assert_eq!(state.active_tab, ActiveTab::Chats);
    state.active_tab = ActiveTab::Friends;
    assert_eq!(state.active_tab, ActiveTab::Friends);
    state.active_tab = ActiveTab::Chats;
    assert_eq!(state.active_tab, ActiveTab::Chats);
}

fn peer(addr: &str, username: &str, hostname: &str, nickname: &str, signature: &str, online: bool) -> Peer {
    Peer {
        ip: ip(addr),
        username: username.to_string(),
        hostname: hostname.to_string(),
        nickname: nickname.to_string(),
        signature: signature.to_string(),
        online,
    }
}

#[test]
fn test_select_discovery_peer_online_vs_offline() {
    let mut state = AppState::default();
    state.active_tab = ActiveTab::Friends;
    state.settings_active = true;
    state.peers = vec![
        peer("192.168.1.10", "alice_smith", "ALICE-PC", "Alice (P2P Client)", "Coding in Rust... 🦀", true),
        peer("10.0.0.15", "charlie_brown", "CHARLIE-SRV", "Charlie (Ops)", "Testing subnets", false),
    ];

    let alice_ip = ip("192.168.1.10");
    state.select_discovery_peer(alice_ip);
    assert_eq!(state.active_tab, ActiveTab::Chats);
    assert!(!state.settings_active);
    assert_eq!(state.selected_peer_ip, Some(alice_ip));

    state.active_tab = ActiveTab::Friends;
    state.settings_active = true;

    let charlie_ip = ip("10.0.0.15");
    state.select_discovery_peer(charlie_ip);
    assert_eq!(state.active_tab, ActiveTab::Friends);
    assert!(state.settings_active);
    assert_eq!(state.selected_peer_ip, Some(alice_ip));
}

#[test]
fn test_send_chat_message_appends_to_selected_peer() {
    let mut state = AppState::default();
    let alice_ip = ip("192.168.1.10");
    state.selected_peer_ip = Some(alice_ip);
    let msg_text = "Test message from unit test";
    state.new_message_text = msg_text.to_string();

    let initial_count = state.messages.get(&alice_ip).map_or(0, |m| m.len());

    let cmd = state.send_chat_message(Some(1_700_000_000_000_000_000), 1_700_000_000);

    let messages = state.messages.get(&alice_ip).unwrap();
    assert_eq!(messages.len(), initial_count + 1);
    let last_msg = messages.last().unwrap();
    assert_eq!(last_msg.content, msg_text);
    assert!(last_msg.is_outgoing);
    assert_eq!(state.new_message_text, "");

    let cmd = cmd.expect("CoreCommand should have been produced");
    let CoreCommand::SendMessage { to_ip, content } = cmd else {
        panic!("Expected SendMessage command");
    };
    assert_eq!(to_ip, "192.168.1.10");
    assert_eq!(content, msg_text);
}

#[test]
fn test_trigger_screen_nudge_transmits_command() {
    let mut state = AppState::default();
    let alice_ip = ip("192.168.1.10");

    let initial_count = state.messages.get(&alice_ip).map_or(0, |m| m.len());

    let cmd = state.trigger_screen_nudge(alice_ip, Some(1_700_000_000_000_000_000), 1_700_000_000);

    let messages = state.messages.get(&alice_ip).unwrap();
    assert_eq!(messages.len(), initial_count + 1);
    let last_msg = messages.last().unwrap();
    assert_eq!(last_msg.content, NUDGE_MESSAGE_CONTENT);
    assert!(last_msg.is_outgoing);

    let CoreCommand::SendKnock { peer_ip } = cmd else {
        panic!("Expected SendKnock command");
    };
    assert_eq!(peer_ip, "192.168.1.10");
}

#[test]
fn test_localized_defaults() {
    let mut state = AppState::default();
    assert_eq!(state.identity.nickname, "昵称");
    assert_eq!(state.identity.signature, "在线");

    let alice_ip = ip("192.168.1.10");
    state.trigger_screen_nudge(alice_ip, Some(1_700_000_000_000_000_000), 1_700_000_000);
    let msgs = state.messages.get(&alice_ip).unwrap();
    let last_msg = msgs.last().unwrap();
    assert_eq!(last_msg.content, NUDGE_MESSAGE_CONTENT);
}

#[test]
fn blank_draft_and_no_selection_change_nothing() {
    let mut state = AppState::default();
    state.new_message_text = "   ".to_string();
    state.selected_peer_ip = Some(ip("1.2.3.4"));
    assert!(state.send_chat_message(Some(1_700_000_000_000_000_000), 1_700_000_000).is_none());
    assert_eq!(state.new_message_text, "   ");
    state.new_message_text = "hi".to_string();
    state.selected_peer_ip = None;
    assert!(state.send_chat_message(Some(1_700_000_000_000_000_000), 1_700_000_000).is_none());
    assert!(state.messages.is_empty());
}

#[test]
fn events_update_peers_threads_and_transfers() {
    let mut state = AppState::default();
    state.handle_event(
        CoreEvent::PeerStatusChanged {
            ip: "192.168.1.5".to_string(),
            username: "bob".to_string(),
            hostname: "bob-pc".to_string(),
            nickname: None,
            online: true,
        },
        Some(1),
        1,
    );
    assert_eq!(state.peers.len(), 1);
    assert_eq!(state.peers[0].nickname, "bob");
    state.handle_event(
        CoreEvent::PeerStatusChanged {
            ip: "192.168.1.5".to_string(),
            username: "bob".to_string(),
            hostname: "bob-pc".to_string(),
            nickname: Some("Bobby".to_string()),
            online: false,
        },
        Some(2),
        2,
    );
    assert_eq!(state.peers.len(), 1);
    assert_eq!(state.peers[0].nickname, "Bobby");
    assert!(!state.peers[0].online);

    let bob = ip("192.168.1.5");
    state.handle_event(
        CoreEvent::MessageReceived {
            id: 9,
            sender_ip: "192.168.1.5".to_string(),
            content: "hello".to_string(),
            timestamp: 77,
            username: "bob".to_string(),
        },
        Some(3),
        3,
    );
    state.handle_event(
        CoreEvent::WindowKnock { sender_ip: "192.168.1.5".to_string(), username: "bob".to_string() },
        Some(4),
        4,
    );
    assert_eq!(state.nudge_shake_ms, 500);
    let file = FileAttachment {
        id: 0,
        name: "doc.txt".to_string(),
        size: 10,
        mtime: 0,
        file_type: 1,
        progress: Progress { done: 0, of: 1 },
        status: TransferStatus::Pending,
    };
    state.handle_event(
        CoreEvent::FileAttachmentsReceived {
            sender_ip: "192.168.1.5".to_string(),
            packet_no: 42,
            files: vec![file],
        },
        Some(5),
        5,
    );
    state.handle_event(
        CoreEvent::TransferStarted {
            task_id: 7,
            peer_ip: "192.168.1.5".to_string(),
            file_name: "doc.txt".to_string(),
            file_size: 10,
            is_sending: false,
        },
        Some(6),
        6,
    );
    state.handle_event(
        CoreEvent::TransferProgress { task_id: 7, progress: Progress { done: 5, of: 10 }, status: TransferStatus::Transferring },
        Some(7),
        7,
    );
    let thread = state.messages.get(&bob).unwrap();
    assert_eq!(thread.len(), 3);
    assert_eq!(thread[0].content, "hello");
    assert_eq!(thread[1].content, "* bob 发送了一个窗口抖动 *");
    assert_eq!(thread[2].content, "doc.txt");
    assert_eq!(thread[2].packet_no, Some(42));
    let f = thread[2].file.as_ref().unwrap();
    assert_eq!(f.progress, Progress { done: 5, of: 10 });
    assert_eq!(f.status, TransferStatus::Transferring);

    state.handle_event(
        CoreEvent::MessageReceived {
            id: 1,
            sender_ip: "not-an-ip".to_string(),
            content: "x".to_string(),
            timestamp: 0,
            username: "x".to_string(),
        },
        Some(8),
        8,
    );
    assert_eq!(state.messages.len(), 1);
}

#[test]
fn status_dot_colours() {
    let on = peer("10.0.0.1", "bob", "bob-pc", "", "", true);
    let off = peer("10.0.0.2", "eve", "eve-pc", "", "", false);
    assert_eq!(peer_status_color(&on), Rgb { r: 0x4c, g: 0xaf, b: 0x50 });
    assert_eq!(peer_status_color(&off), Rgb { r: 0x9e, g: 0x9e, b: 0x9e });
}

#[test]
fn event_ignored_and_unknown_time() {
    let mut state = AppState::default();
    state.selected_peer_ip = Some(ip("10.0.0.15"));
    state.new_message_text = "draft".to_string();
    state.handle_event(CoreEvent::PeerTyping { sender_ip: "10.0.0.15".to_string(), typing: true }, Some(5), 5);
    assert!(state.messages.is_empty());
    assert_eq!(state.new_message_text, "draft");
    assert_eq!(state.selected_peer_ip, Some(ip("10.0.0.15")));
    state.handle_event(
        CoreEvent::WindowKnock { sender_ip: "10.0.0.15".to_string(), username: "bob".to_string() },
        None,
        9,
    );
    let line = state.messages.get(&ip("10.0.0.15")).unwrap().last().unwrap().clone();
    assert_eq!(line.id, 0);
    assert_eq!(line.timestamp, 9);
    assert_eq!(state.new_message_text, "draft");
}

#[test]
fn file_card_buttons() {
    let mut file = FileAttachment {
        id: 3,
        name: "a.png".to_string(),
        size: 10,
        mtime: 0,
        file_type: 1,
        progress: Progress { done: 4, of: 10 },
        status: TransferStatus::Pending,
    };
    let cmd = file_card_click(&mut file, ip("10.0.0.15"), Some(77));
    assert!(matches!(cmd, Some(CoreCommand::DownloadFile { ref peer_ip, packet_no: 77, file_id: 3, ref name, size: 10 })
        if peer_ip == "10.0.0.15" && name == "a.png"));
    assert_eq!(file.status, TransferStatus::Transferring);
    assert!(file_card_click(&mut file, ip("10.0.0.15"), Some(77)).is_none());
    assert_eq!(file.status, TransferStatus::Pending);
    assert_eq!(file.progress, Progress { done: 0, of: 1 });
    file.status = TransferStatus::Failed;
    assert!(file_card_click(&mut file, ip("10.0.0.15"), None).is_none());
    assert_eq!(file.status, TransferStatus::Transferring);
    file.status = TransferStatus::Completed;
    let before = file.clone();
    assert!(file_card_click(&mut file, ip("10.0.0.15"), Some(1)).is_none());
    assert_eq!(file, before);
}
