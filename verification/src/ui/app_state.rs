//! The state of the desktop front end: peers, conversations, settings,
//! and how engine events and user actions change them.
use vstd::prelude::*;
use std::collections::HashMap;
use crate::network::peer_directory::{ipv4_text, ipv4_to_string, ipv4_value, parse_ipv4};
use crate::numfmt::{dec_repr, push_dec};
use crate::protocol::IPMSG_PORT;
use crate::text::{chars_of, push_char, push_str, string_from_chars, trim_bounds, trim_ws};
use crate::types::{
    AttachmentModel, CoreCommand, CoreEvent, EventModel, FileAttachment, Progress, TransferStatus,
    NUDGE_MESSAGE_CONTENT,
};

verus! {

broadcast use vstd::std_specs::hash::group_hash_axioms;

/// The list shown in the middle column.
#[derive(Clone, Copy, Debug, PartialEq, Eq, Structural)]
pub enum ActiveTab {
    Chats,
    Friends,
}

/// The colour scheme.
#[derive(Clone, Copy, Debug, PartialEq, Eq, Structural)]
pub enum Theme {
    Dark,
    Light,
}

/// Who the local user is.
#[derive(Clone, Debug)]
pub struct IdentitySettings {
    pub username: String,
    pub hostname: String,
    pub nickname: String,
    pub signature: String,
}

/// Where the node listens and announces.
#[derive(Clone, Debug)]
pub struct NetworkingSettings {
    pub port: u16,
    pub bind_ip: String,
    pub broadcast_subnets: Vec<String>,
}

/// How the front end behaves.
#[derive(Clone, Debug)]
pub struct PreferenceSettings {
    pub theme: Theme,
    pub sound_notify: bool,
    pub screen_nudges_enabled: bool,
    pub enable_system_tray: bool,
    pub minimize_to_tray_on_close: bool,
    pub desktop_notifications_enabled: bool,
    pub download_dir: String,
}

/// A peer as the front end shows it; `ip` is its IPv4 address as a number.
#[derive(Clone, Debug)]
pub struct Peer {
    pub ip: u32,
    pub username: String,
    pub hostname: String,
    pub nickname: String,
    pub signature: String,
    pub online: bool,
}

/// One line of a conversation; `sender_ip` is an IPv4 address as a
/// number (127.0.0.1 for the local user).
#[derive(Clone, Debug)]
pub struct Message {
    pub id: i64,
    pub sender_ip: u32,
    pub content: String,
    pub timestamp: i64,
    pub is_outgoing: bool,
    pub file: Option<FileAttachment>,
    pub packet_no: Option<u32>,
}

pub struct PeerModel {
    pub ip: u32,
    pub username: Seq<char>,
    pub hostname: Seq<char>,
    pub nickname: Seq<char>,
    pub signature: Seq<char>,
    pub online: bool,
}

impl View for Peer {
    type V = PeerModel;

    open spec fn view(&self) -> PeerModel {
        PeerModel {
            ip: self.ip,
            username: self.username@,
            hostname: self.hostname@,
            nickname: self.nickname@,
            signature: self.signature@,
            online: self.online,
        }
    }
}

pub struct MessageModel {
    pub id: i64,
    pub sender_ip: u32,
    pub content: Seq<char>,
    pub timestamp: i64,
    pub is_outgoing: bool,
    pub file: Option<AttachmentModel>,
    pub packet_no: Option<u32>,
}

impl View for Message {
    type V = MessageModel;

    open spec fn view(&self) -> MessageModel {
        MessageModel {
            id: self.id,
            sender_ip: self.sender_ip,
            content: self.content@,
            timestamp: self.timestamp,
            is_outgoing: self.is_outgoing,
            file: match self.file {
                Some(f) => Some(f@),
                None => None,
            },
            packet_no: self.packet_no,
        }
    }
}

/// The address of the local user in conversations: 127.0.0.1.
pub const LOCALHOST_IP: u32 = 0x7F00_0001;

/// How long a window shake lasts, in milliseconds.
pub const NUDGE_SHAKE_MS: u32 = 500;

/// The state of the desktop front end. The shake of a window nudge is
/// counted down in milliseconds by the caller.
pub struct AppState {
    pub active_tab: ActiveTab,
    pub settings_active: bool,
    pub peers: Vec<Peer>,
    pub messages: HashMap<u32, Vec<Message>>,
    pub selected_peer_ip: Option<u32>,
    pub nudge_shake_ms: u32,
    pub identity: IdentitySettings,
    pub networking: NetworkingSettings,
    pub preferences: PreferenceSettings,
    pub minimized_to_tray: bool,
    pub new_message_text: String,
    pub new_subnet_text: String,
    pub task_mappings: HashMap<i64, (u32, String)>,
    pub file_to_share_path: String,
    pub show_share_file_dialog: bool,
    pub last_synced_username: String,
    pub last_synced_hostname: String,
    pub last_synced_download_dir: String,
}

/// The conversations by peer address.
pub open spec fn thread_views(m: Map<u32, Vec<Message>>) -> Map<u32, Seq<MessageModel>> {
    m.map_values(|v: Vec<Message>| v@.map_values(|x: Message| x@))
}

/// The conversation with `ip` (empty when there is none yet).
pub open spec fn thread_of(t: Map<u32, Seq<MessageModel>>, ip: u32) -> Seq<MessageModel> {
    if t.contains_key(ip) {
        t[ip]
    } else {
        Seq::empty()
    }
}

/// The conversations with `m` added to the one with `ip`.
pub open spec fn with_message(t: Map<u32, Seq<MessageModel>>, ip: u32, m: MessageModel) -> Map<
    u32,
    Seq<MessageModel>,
> {
    t.insert(ip, thread_of(t, ip).push(m))
}

/// The file transfers by task number: the peer and the file name.
pub open spec fn task_views(m: Map<i64, (u32, String)>) -> Map<i64, (u32, Seq<char>)> {
    m.map_values(|v: (u32, String)| (v.0, v.1@))
}

/// The position of the first peer at `ip`, or -1.
pub open spec fn first_peer(peers: Seq<PeerModel>, ip: u32) -> int
    decreases peers.len(),
{
    if peers.len() == 0 {
        -1
    } else if peers[0].ip == ip {
        0
    } else {
        let r = first_peer(peers.drop_first(), ip);
        if r < 0 {
            -1
        } else {
            r + 1
        }
    }
}

proof fn lemma_first_peer(peers: Seq<PeerModel>, ip: u32)
    ensures
        -1 <= first_peer(peers, ip) < peers.len(),
        first_peer(peers, ip) >= 0 ==> peers[first_peer(peers, ip)].ip == ip,
        forall|j: int| 0 <= j < peers.len() && (first_peer(peers, ip) < 0 || j < first_peer(peers, ip))
            ==> peers[j].ip != ip,
    decreases peers.len(),
{
    if peers.len() > 0 && peers[0].ip != ip {
        lemma_first_peer(peers.drop_first(), ip);
        assert forall|j: int| 0 < j < peers.len() implies peers[j] == peers.drop_first()[j - 1] by {}
    }
}

/// The peers after a status report from `ip`: the first peer at that
/// address takes the new names (the nickname, or the user name when none
/// is given) and online state; an unknown peer is added with an empty
/// signature.
pub open spec fn peers_after_status(
    peers: Seq<PeerModel>,
    ip: u32,
    username: Seq<char>,
    hostname: Seq<char>,
    nickname: Option<Seq<char>>,
    online: bool,
) -> Seq<PeerModel> {
    let shown = match nickname {
        Some(n) => n,
        None => username,
    };
    let i = first_peer(peers, ip);
    if i >= 0 {
        peers.update(
            i,
            PeerModel { nickname: shown, username, hostname, online, ..peers[i] },
        )
    } else {
        peers.push(
            PeerModel { ip, username, hostname, nickname: shown, signature: Seq::empty(), online },
        )
    }
}

/// A message of a conversation after a transfer of the file `name` moved
/// on: its attachment, if it has that name, takes the progress (when one
/// is given) and the status.
pub open spec fn with_transfer(m: MessageModel, name: Seq<char>, progress: Option<Progress>, status: TransferStatus) -> MessageModel {
    match m.file {
        Some(f) => if f.name == name {
            MessageModel {
                file: Some(
                    AttachmentModel {
                        progress: match progress {
                            Some(p) => p,
                            None => f.progress,
                        },
                        status,
                        ..f
                    },
                ),
                ..m
            }
        } else {
            m
        },
        None => m,
    }
}

/// The conversations after a transfer of `name` with `ip` moved on.
pub open spec fn threads_after_transfer(
    t: Map<u32, Seq<MessageModel>>,
    ip: u32,
    name: Seq<char>,
    progress: Option<Progress>,
    status: TransferStatus,
) -> Map<u32, Seq<MessageModel>> {
    if t.contains_key(ip) {
        t.insert(ip, t[ip].map_values(|m: MessageModel| with_transfer(m, name, progress, status)))
    } else {
        t
    }
}

/// The line shown for a received window knock: `* NAME 发送了一个窗口抖动 *`.
pub open spec fn knock_line(username: Seq<char>) -> Seq<char> {
    "* "@ + username + " 发送了一个窗口抖动 *"@
}

/// The messages of a received file offer: one per file, named after it.
pub open spec fn file_messages(
    ip: u32,
    packet_no: u32,
    files: Seq<AttachmentModel>,
    now_nanos: i64,
    now_secs: i64,
) -> Seq<MessageModel> {
    files.map_values(
        |f: AttachmentModel|
            MessageModel {
                id: now_nanos,
                sender_ip: ip,
                content: f.name,
                timestamp: now_secs,
                is_outgoing: false,
                file: Some(f),
                packet_no: Some(packet_no),
            },
    )
}

impl AppState {
    /// The conversations, by peer address.
    pub open spec fn threads(&self) -> Map<u32, Seq<MessageModel>> {
        thread_views(self.messages@)
    }

    /// The peers, in the order they appeared.
    pub open spec fn peer_views(&self) -> Seq<PeerModel> {
        self.peers@.map_values(|p: Peer| p@)
    }

    /// The file transfers by task number.
    pub open spec fn tasks(&self) -> Map<i64, (u32, Seq<char>)> {
        task_views(self.task_mappings@)
    }
}


/// Everything but the peers, conversations, selection, tabs, nudge, draft
/// and transfers is left as it was.
pub open spec fn settings_unchanged(a: AppState, b: AppState) -> bool {
    &&& a.identity == b.identity
    &&& a.networking == b.networking
    &&& a.preferences == b.preferences
    &&& a.minimized_to_tray == b.minimized_to_tray
    &&& a.new_subnet_text == b.new_subnet_text
    &&& a.file_to_share_path == b.file_to_share_path
    &&& a.show_share_file_dialog == b.show_share_file_dialog
    &&& a.last_synced_username == b.last_synced_username
    &&& a.last_synced_hostname == b.last_synced_hostname
    &&& a.last_synced_download_dir == b.last_synced_download_dir
}

impl Default for AppState {
    /// The state at first start: the chat list, no peer, the local
    /// defaults of identity, networking and preferences.
    fn default() -> (res: AppState)
        ensures
            res.active_tab == ActiveTab::Chats,
            !res.settings_active,
            res.peers@.len() == 0,
            res.threads() == Map::<u32, Seq<MessageModel>>::empty(),
            res.selected_peer_ip is None,
            res.nudge_shake_ms == 0,
            res.identity.username@ == "local_user"@,
            res.identity.hostname@ == "LOCAL-PC"@,
            res.identity.nickname@ == "昵称"@,
            res.identity.signature@ == "在线"@,
            res.networking.port == IPMSG_PORT,
            res.networking.bind_ip@ == "0.0.0.0"@,
            res.networking.broadcast_subnets@.len() == 2,
            res.networking.broadcast_subnets@[0]@ == "192.168.1.255"@,
            res.networking.broadcast_subnets@[1]@ == "10.0.0.255"@,
            res.preferences.theme == Theme::Dark,
            res.preferences.sound_notify,
            res.preferences.screen_nudges_enabled,
            res.preferences.enable_system_tray,
            !res.preferences.minimize_to_tray_on_close,
            res.preferences.desktop_notifications_enabled,
            res.preferences.download_dir@ == "downloads"@,
            !res.minimized_to_tray,
            res.new_message_text@.len() == 0,
            res.new_subnet_text@.len() == 0,
            res.tasks() == Map::<i64, (u32, Seq<char>)>::empty(),
            res.file_to_share_path@.len() == 0,
            !res.show_share_file_dialog,
            res.last_synced_username@ == "local_user"@,
            res.last_synced_hostname@ == "LOCAL-PC"@,
            res.last_synced_download_dir@ == "downloads"@,
    {
        let mut subnets: Vec<String> = Vec::new();
        subnets.push(String::from_str("192.168.1.255"));
        subnets.push(String::from_str("10.0.0.255"));
        let res = AppState {
            active_tab: ActiveTab::Chats,
            settings_active: false,
            peers: Vec::new(),
            messages: HashMap::new(),
            selected_peer_ip: None,
            nudge_shake_ms: 0,
            identity: IdentitySettings {
                username: String::from_str("local_user"),
                hostname: String::from_str("LOCAL-PC"),
                nickname: String::from_str("昵称"),
                signature: String::from_str("在线"),
            },
            networking: NetworkingSettings {
                port: IPMSG_PORT,
                bind_ip: String::from_str("0.0.0.0"),
                broadcast_subnets: subnets,
            },
            preferences: PreferenceSettings {
                theme: Theme::Dark,
                sound_notify: true,
                screen_nudges_enabled: true,
                enable_system_tray: true,
                minimize_to_tray_on_close: false,
                desktop_notifications_enabled: true,
                download_dir: String::from_str("downloads"),
            },
            minimized_to_tray: false,
            new_message_text: String::new(),
            new_subnet_text: String::new(),
            task_mappings: HashMap::new(),
            file_to_share_path: String::new(),
            show_share_file_dialog: false,
            last_synced_username: String::from_str("local_user"),
            last_synced_hostname: String::from_str("LOCAL-PC"),
            last_synced_download_dir: String::from_str("downloads"),
        };
        assert(res.threads() =~= Map::<u32, Seq<MessageModel>>::empty());
        assert(res.tasks() =~= Map::<i64, (u32, Seq<char>)>::empty());
        res
    }
}

impl AppState {
    /// Adds `m` to the conversation with `ip`, opening it when needed.
    fn push_message(&mut self, ip: u32, m: Message)
        ensures
            final(self).threads() == with_message(old(self).threads(), ip, m@),
            final(self).peers == old(self).peers,
            final(self).task_mappings == old(self).task_mappings,
            final(self).selected_peer_ip == old(self).selected_peer_ip,
            final(self).active_tab == old(self).active_tab,
            final(self).settings_active == old(self).settings_active,
            final(self).nudge_shake_ms == old(self).nudge_shake_ms,
            final(self).new_message_text == old(self).new_message_text,
            settings_unchanged(*final(self), *old(self)),
    {
        let mut thread = match self.messages.remove(&ip) {
            Some(v) => v,
            None => Vec::new(),
        };
        let ghost before = thread@;
        thread.push(m);
        self.messages.insert(ip, thread);
        proof {
            let old_t = old(self).threads();
            assert(thread_of(old_t, ip) =~= before.map_values(|x: Message| x@));
            assert(thread@.map_values(|x: Message| x@) =~= before.map_values(|x: Message| x@).push(m@));
            assert(self.threads() =~= with_message(old_t, ip, m@));
        }
    }

    /// Applies a transfer step of the file `name` to the conversation with
    /// `ip`, if there is one.
    fn apply_transfer(&mut self, ip: u32, name: &String, progress: Option<Progress>, status: TransferStatus)
        ensures
            final(self).threads() == threads_after_transfer(
                old(self).threads(),
                ip,
                name@,
                progress,
                status,
            ),
            final(self).peers == old(self).peers,
            final(self).task_mappings == old(self).task_mappings,
            final(self).selected_peer_ip == old(self).selected_peer_ip,
            final(self).active_tab == old(self).active_tab,
            final(self).settings_active == old(self).settings_active,
            final(self).nudge_shake_ms == old(self).nudge_shake_ms,
            final(self).new_message_text == old(self).new_message_text,
            settings_unchanged(*final(self), *old(self)),
    {
        match self.messages.remove(&ip) {
            None => {
                assert(self.threads() =~= old(self).threads());
            },
            Some(thread) => {
                let ghost tv = thread@.map_values(|x: Message| x@);
                let mut updated: Vec<Message> = Vec::new();
                let mut i: usize = 0;
                while i < thread.len()
                    invariant
                        i <= thread@.len(),
                        tv == thread@.map_values(|x: Message| x@),
                        updated@.map_values(|x: Message| x@) == tv.take(i as int).map_values(
                            |m: MessageModel| with_transfer(m, name@, progress, status),
                        ),
                    decreases thread@.len() - i,
                {
                    let m = &thread[i];
                    let file = match &m.file {
                        Some(f) => {
                            if f.name == *name {
                                Some(
                                    FileAttachment {
                                        id: f.id,
                                        name: f.name.clone(),
                                        size: f.size,
                                        mtime: f.mtime,
                                        file_type: f.file_type,
                                        progress: match progress {
                                            Some(p) => p,
                                            None => f.progress,
                                        },
                                        status,
                                    },
                                )
                            } else {
                                Some(
                                    FileAttachment {
                                        id: f.id,
                                        name: f.name.clone(),
                                        size: f.size,
                                        mtime: f.mtime,
                                        file_type: f.file_type,
                                        progress: f.progress,
                                        status: f.status,
                                    },
                                )
                            }
                        },
                        None => None,
                    };
                    let ghost before = updated@;
                    updated.push(
                        Message {
                            id: m.id,
                            sender_ip: m.sender_ip,
                            content: m.content.clone(),
                            timestamp: m.timestamp,
                            is_outgoing: m.is_outgoing,
                            file,
                            packet_no: m.packet_no,
                        },
                    );
                    proof {
                        assert(tv[i as int] == m@);
                        assert(updated@.map_values(|x: Message| x@) =~= before.map_values(
                            |x: Message| x@,
                        ).push(with_transfer(m@, name@, progress, status)));
                        assert(tv.take(i + 1) =~= tv.take(i as int).push(m@));
                        assert(tv.take(i + 1).map_values(
                            |mm: MessageModel| with_transfer(mm, name@, progress, status),
                        ) =~= tv.take(i as int).map_values(
                            |mm: MessageModel| with_transfer(mm, name@, progress, status),
                        ).push(with_transfer(m@, name@, progress, status)));
                    }
                    i = i + 1;
                }
                assert(tv.take(thread@.len() as int) =~= tv);
                self.messages.insert(ip, updated);
                proof {
                    let old_t = old(self).threads();
                    assert(old_t[ip] == tv);
                    assert(self.threads() =~= threads_after_transfer(old_t, ip, name@, progress, status));
                }
            },
        }
    }
}


/// The id of a line made at a time whose count of nanoseconds since the
/// epoch is `now_nanos`: that count, or 0 where it does not fit an `i64`.
pub open spec fn line_id(now_nanos: Option<i64>) -> i64 {
    match now_nanos {
        Some(n) => n,
        None => 0,
    }
}

fn line_id_exec(now_nanos: Option<i64>) -> (res: i64)
    ensures
        res == line_id(now_nanos),
{
    match now_nanos {
        Some(n) => n,
        None => 0,
    }
}

/// The conversation with `ip` opened (left as it is when it exists).
pub open spec fn with_thread(t: Map<u32, Seq<MessageModel>>, ip: u32) -> Map<u32, Seq<MessageModel>> {
    t.insert(ip, thread_of(t, ip))
}

/// What the state becomes after an engine event at the given time.
pub open spec fn after_event(s: AppState, e: EventModel, now_nanos: i64, now_secs: i64) -> (
    Seq<PeerModel>,
    Map<u32, Seq<MessageModel>>,
    Map<i64, (u32, Seq<char>)>,
    u32,
) {
    let peers = s.peer_views();
    let t = s.threads();
    let tasks = s.tasks();
    let nudge = s.nudge_shake_ms;
    match e {
        EventModel::PeerStatusChanged { ip, username, hostname, nickname, online } => match ipv4_value(ip) {
            Some(v) => (peers_after_status(peers, v, username, hostname, nickname, online), t, tasks, nudge),
            None => (peers, t, tasks, nudge),
        },
        EventModel::MessageReceived { id, sender_ip, content, timestamp, .. } => match ipv4_value(sender_ip) {
            Some(v) => (
                peers,
                with_message(
                    t,
                    v,
                    MessageModel {
                        id,
                        sender_ip: v,
                        content,
                        timestamp,
                        is_outgoing: false,
                        file: None,
                        packet_no: None,
                    },
                ),
                tasks,
                nudge,
            ),
            None => (peers, t, tasks, nudge),
        },
        EventModel::FileAttachmentsReceived { sender_ip, packet_no, files } => match ipv4_value(sender_ip) {
            Some(v) => if files.len() > 0 {
                (peers, t.insert(v, thread_of(t, v) + file_messages(v, packet_no, files, now_nanos, now_secs)), tasks, nudge)
            } else {
                (peers, t, tasks, nudge)
            },
            None => (peers, t, tasks, nudge),
        },
        EventModel::WindowKnock { sender_ip, username } => match ipv4_value(sender_ip) {
            Some(v) => (
                peers,
                with_message(
                    t,
                    v,
                    MessageModel {
                        id: now_nanos,
                        sender_ip: v,
                        content: knock_line(username),
                        timestamp: now_secs,
                        is_outgoing: false,
                        file: None,
                        packet_no: None,
                    },
                ),
                tasks,
                if s.preferences.screen_nudges_enabled {
                    NUDGE_SHAKE_MS
                } else {
                    nudge
                },
            ),
            None => (peers, t, tasks, nudge),
        },
        EventModel::PeerTyping { .. } => (peers, t, tasks, nudge),
        EventModel::TransferStarted { task_id, peer_ip, file_name, .. } => match ipv4_value(peer_ip) {
            Some(v) => (
                peers,
                threads_after_transfer(t, v, file_name, None, TransferStatus::Transferring),
                tasks.insert(task_id, (v, file_name)),
                nudge,
            ),
            None => (peers, t, tasks, nudge),
        },
        EventModel::TransferProgress { task_id, progress, status } => if tasks.contains_key(task_id) {
            (peers, threads_after_transfer(t, tasks[task_id].0, tasks[task_id].1, Some(progress), status), tasks, nudge)
        } else {
            (peers, t, tasks, nudge)
        },
    }
}

/// What sending the draft at time `n` (nanoseconds) and `t` (seconds)
/// does: the trimmed draft is added to the selected conversation as an
/// outgoing line from 127.0.0.1, the draft is cleared, and the command for
/// the engine is returned; a blank draft, or no selected peer, changes
/// nothing.
pub open spec fn draft_sent(s0: AppState, s1: AppState, n: i64, t: i64, res: Option<CoreCommand>) -> bool {
    &&& ({
        let text = trim_ws(s0.new_message_text@);
        if text.len() > 0 && s0.selected_peer_ip is Some {
            let ip = s0.selected_peer_ip->Some_0;
            &&& res matches Some(CoreCommand::SendMessage { to_ip, content })
            &&& to_ip@ == ipv4_text(ip)
            &&& content@ == text
            &&& s1.threads() == with_message(
                s0.threads(),
                ip,
                MessageModel {
                    id: n,
                    sender_ip: LOCALHOST_IP,
                    content: text,
                    timestamp: t,
                    is_outgoing: true,
                    file: None,
                    packet_no: None,
                },
            )
            &&& s1.new_message_text@.len() == 0
        } else {
            &&& res is None
            &&& s1.threads() == s0.threads()
            &&& s1.new_message_text == s0.new_message_text
        }
    })
    &&& s1.peers == s0.peers
    &&& s1.task_mappings == s0.task_mappings
    &&& s1.selected_peer_ip == s0.selected_peer_ip
    &&& s1.active_tab == s0.active_tab
    &&& s1.settings_active == s0.settings_active
    &&& s1.nudge_shake_ms == s0.nudge_shake_ms
    &&& settings_unchanged(s1, s0)
}

/// What nudging `peer_ip` at time `n` (nanoseconds) and `t` (seconds)
/// does: the window shakes when nudges are enabled, the nudge line is added
/// to that conversation as an outgoing line from 127.0.0.1, and the knock
/// command for the engine is returned.
pub open spec fn nudge_sent(s0: AppState, s1: AppState, peer_ip: u32, n: i64, t: i64, res: CoreCommand) -> bool {
    &&& res matches CoreCommand::SendKnock { peer_ip: to } && to@ == ipv4_text(peer_ip)
    &&& s1.nudge_shake_ms == if s0.preferences.screen_nudges_enabled {
        NUDGE_SHAKE_MS
    } else {
        s0.nudge_shake_ms
    }
    &&& s1.threads() == with_message(
        s0.threads(),
        peer_ip,
        MessageModel {
            id: n,
            sender_ip: LOCALHOST_IP,
            content: NUDGE_MESSAGE_CONTENT@,
            timestamp: t,
            is_outgoing: true,
            file: None,
            packet_no: None,
        },
    )
    &&& s1.peers == s0.peers
    &&& s1.task_mappings == s0.task_mappings
    &&& s1.selected_peer_ip == s0.selected_peer_ip
    &&& s1.active_tab == s0.active_tab
    &&& s1.settings_active == s0.settings_active
    &&& s1.new_message_text == s0.new_message_text
    &&& settings_unchanged(s1, s0)
}

impl AppState {
    /// Opens the conversation with an online peer from the discovery list:
    /// it becomes the selected one, the chat list shows and the settings
    /// close. An offline or unknown peer changes nothing.
    pub fn select_discovery_peer(&mut self, ip: u32)
        ensures
            ({
                let i = first_peer(old(self).peer_views(), ip);
                if i >= 0 && old(self).peer_views()[i].online {
                    &&& final(self).selected_peer_ip == Some(ip)
                    &&& final(self).active_tab == ActiveTab::Chats
                    &&& !final(self).settings_active
                    &&& final(self).threads() == with_thread(old(self).threads(), ip)
                } else {
                    &&& final(self).selected_peer_ip == old(self).selected_peer_ip
                    &&& final(self).active_tab == old(self).active_tab
                    &&& final(self).settings_active == old(self).settings_active
                    &&& final(self).threads() == old(self).threads()
                }
            }),
            final(self).peers == old(self).peers,
            final(self).task_mappings == old(self).task_mappings,
            final(self).nudge_shake_ms == old(self).nudge_shake_ms,
            final(self).new_message_text == old(self).new_message_text,
            settings_unchanged(*final(self), *old(self)),
    {
        proof {
            lemma_first_peer(self.peer_views(), ip);
        }
        let mut i: usize = 0;
        while i < self.peers.len()
            invariant
                i <= self.peers@.len(),
                forall|j: int| 0 <= j < i ==> self.peers@[j].ip != ip,
            ensures
                i <= self.peers@.len(),
                forall|j: int| 0 <= j < i ==> self.peers@[j].ip != ip,
                i < self.peers@.len() ==> self.peers@[i as int].ip == ip,
            decreases self.peers@.len() - i,
        {
            if self.peers[i].ip == ip {
                break;
            }
            i = i + 1;
        }
        let ghost pv = self.peer_views();
        if i < self.peers.len() {
            assert(pv[i as int] == self.peers@[i as int]@);
            assert(first_peer(pv, ip) == i) by {
                if first_peer(pv, ip) < 0 || first_peer(pv, ip) > i {
                    assert(pv[i as int].ip == ip);
                }
                if 0 <= first_peer(pv, ip) < i {
                    assert(pv[first_peer(pv, ip)] == self.peers@[first_peer(pv, ip)]@);
                }
            }
            if self.peers[i].online {
                self.selected_peer_ip = Some(ip);
                self.active_tab = ActiveTab::Chats;
                self.settings_active = false;
                let ghost old_t = old(self).threads();
                let thread = match self.messages.remove(&ip) {
                    Some(v) => v,
                    None => Vec::new(),
                };
                assert(thread@.map_values(|x: Message| x@) =~= thread_of(old_t, ip));
                self.messages.insert(ip, thread);
                proof {
                    assert(self.threads() =~= with_thread(old_t, ip));
                }
            }
        } else {
            assert(first_peer(pv, ip) < 0) by {
                if first_peer(pv, ip) >= 0 {
                    assert(pv[first_peer(pv, ip)] == self.peers@[first_peer(pv, ip)]@);
                }
            }
        }
    }

    /// Sends the draft to the selected peer at the given time: the trimmed
    /// draft is added to that conversation as an outgoing line from
    /// 127.0.0.1, the draft is cleared, and the command for the engine is
    /// returned. A blank draft, or no selected peer, changes nothing.
    fn send_chat_message_at(&mut self, now_nanos: i64, now_secs: i64) -> (res: Option<CoreCommand>)
        ensures
            draft_sent(*old(self), *final(self), now_nanos, now_secs, res),
    {
        let cs = chars_of(self.new_message_text.as_str());
        let (a, b) = trim_bounds(cs.as_slice());
        if a == b {
            return None;
        }
        match self.selected_peer_ip {
            None => None,
            Some(ip) => {
                let text = string_from_chars(vstd::slice::slice_subrange(cs.as_slice(), a, b));
                self.push_message(
                    ip,
                    Message {
                        id: now_nanos,
                        sender_ip: LOCALHOST_IP,
                        content: text.clone(),
                        timestamp: now_secs,
                        is_outgoing: true,
                        file: None,
                        packet_no: None,
                    },
                );
                self.new_message_text = String::new();
                Some(CoreCommand::SendMessage { to_ip: ipv4_to_string(ip), content: text })
            },
        }
    }

    /// Sends the draft at the time the caller read: `now_nanos` in
    /// nanoseconds since the epoch (`None` where that does not fit an
    /// `i64`) gives the line its id, `now_secs` its timestamp.
    pub fn send_chat_message(&mut self, now_nanos: Option<i64>, now_secs: i64) -> (res: Option<CoreCommand>)
        ensures
            draft_sent(*old(self), *final(self), line_id(now_nanos), now_secs, res),
    {
        let id = line_id_exec(now_nanos);
        self.send_chat_message_at(id, now_secs)
    }

    /// Nudges `peer_ip` at the given time: the window shakes when nudges
    /// are enabled, the nudge line is added to that conversation as an
    /// outgoing line from 127.0.0.1, and the knock command for the engine
    /// is returned.
    fn trigger_screen_nudge_at(&mut self, peer_ip: u32, now_nanos: i64, now_secs: i64) -> (res:
        CoreCommand)
        ensures
            nudge_sent(*old(self), *final(self), peer_ip, now_nanos, now_secs, res),
    {
        if self.preferences.screen_nudges_enabled {
            self.nudge_shake_ms = NUDGE_SHAKE_MS;
        }
        self.push_message(
            peer_ip,
            Message {
                id: now_nanos,
                sender_ip: LOCALHOST_IP,
                content: String::from_str(NUDGE_MESSAGE_CONTENT),
                timestamp: now_secs,
                is_outgoing: true,
                file: None,
                packet_no: None,
            },
        );
        CoreCommand::SendKnock { peer_ip: ipv4_to_string(peer_ip) }
    }

    /// Nudges `peer_ip` at the time the caller read (as for
    /// `send_chat_message`).
    pub fn trigger_screen_nudge(&mut self, peer_ip: u32, now_nanos: Option<i64>, now_secs: i64) -> (res:
        CoreCommand)
        ensures
            nudge_sent(*old(self), *final(self), peer_ip, line_id(now_nanos), now_secs, res),
    {
        let id = line_id_exec(now_nanos);
        self.trigger_screen_nudge_at(peer_ip, id, now_secs)
    }
}


impl AppState {
    /// Updates the peer list for a status report from `v`.
    fn apply_status(&mut self, v: u32, username: String, hostname: String, nickname: Option<String>, online: bool)
        ensures
            final(self).peer_views() == peers_after_status(
                old(self).peer_views(),
                v,
                username@,
                hostname@,
                crate::types::opt_view(nickname),
                online,
            ),
            final(self).messages == old(self).messages,
            final(self).task_mappings == old(self).task_mappings,
            final(self).selected_peer_ip == old(self).selected_peer_ip,
            final(self).active_tab == old(self).active_tab,
            final(self).settings_active == old(self).settings_active,
            final(self).nudge_shake_ms == old(self).nudge_shake_ms,
            final(self).new_message_text == old(self).new_message_text,
            settings_unchanged(*final(self), *old(self)),
    {
        proof {
            lemma_first_peer(self.peer_views(), v);
        }
        let shown = match nickname {
            Some(n) => n,
            None => username.clone(),
        };
        let mut i: usize = 0;
        while i < self.peers.len()
            invariant
                i <= self.peers@.len(),
                forall|j: int| 0 <= j < i ==> self.peers@[j].ip != v,
            ensures
                i <= self.peers@.len(),
                forall|j: int| 0 <= j < i ==> self.peers@[j].ip != v,
                i < self.peers@.len() ==> self.peers@[i as int].ip == v,
            decreases self.peers@.len() - i,
        {
            if self.peers[i].ip == v {
                break;
            }
            i = i + 1;
        }
        let ghost pv = self.peer_views();
        if i < self.peers.len() {
            assert(first_peer(pv, v) == i) by {
                assert(pv[i as int] == self.peers@[i as int]@);
                if 0 <= first_peer(pv, v) < i {
                    assert(pv[first_peer(pv, v)] == self.peers@[first_peer(pv, v)]@);
                }
            }
            let signature = self.peers[i].signature.clone();
            let pip = self.peers[i].ip;
            self.peers[i] = Peer { ip: pip, username, hostname, nickname: shown, signature, online };
            assert(self.peer_views() =~= peers_after_status(
                pv,
                v,
                username@,
                hostname@,
                crate::types::opt_view(nickname),
                online,
            ));
        } else {
            assert(first_peer(pv, v) < 0) by {
                if first_peer(pv, v) >= 0 {
                    assert(pv[first_peer(pv, v)] == self.peers@[first_peer(pv, v)]@);
                }
            }
            self.peers.push(Peer { ip: v, username, hostname, nickname: shown, signature: String::new(), online });
            assert(self.peer_views() =~= peers_after_status(
                pv,
                v,
                username@,
                hostname@,
                crate::types::opt_view(nickname),
                online,
            ));
        }
    }

    /// Applies an engine event received at the given time: peer reports
    /// update the peer list, messages, file offers and knocks (which also
    /// shake the window when nudges are enabled) are added to the sender's
    /// conversation, and transfer steps update the matching attachments.
    /// Events from an address that is not IPv4 change nothing.
    fn handle_event_at(&mut self, event: CoreEvent, now_nanos: i64, now_secs: i64)
        ensures
            (final(self).peer_views(), final(self).threads(), final(self).tasks(), final(self).nudge_shake_ms)
                == after_event(*old(self), event@, now_nanos, now_secs),
            final(self).selected_peer_ip == old(self).selected_peer_ip,
            final(self).active_tab == old(self).active_tab,
            final(self).settings_active == old(self).settings_active,
            final(self).new_message_text == old(self).new_message_text,
            settings_unchanged(*final(self), *old(self)),
    {
        let ghost ev = event@;
        match event {
            CoreEvent::PeerStatusChanged { ip, username, hostname, nickname, online } => {
                match parse_ipv4(ip.as_str()) {
                    Some(v) => self.apply_status(v, username, hostname, nickname, online),
                    None => {},
                }
            },
            CoreEvent::MessageReceived { id, sender_ip, content, timestamp, username: _ } => {
                match parse_ipv4(sender_ip.as_str()) {
                    Some(v) => {
                        self.push_message(
                            v,
                            Message {
                                id,
                                sender_ip: v,
                                content,
                                timestamp,
                                is_outgoing: false,
                                file: None,
                                packet_no: None,
                            },
                        );
                    },
                    None => {},
                }
            },
            CoreEvent::FileAttachmentsReceived { sender_ip, packet_no, files } => {
                match parse_ipv4(sender_ip.as_str()) {
                    Some(v) => {
                        let ghost t0 = self.threads();
                        let ghost fv = files@.map_values(|a: FileAttachment| a@);
                        let ghost fm = file_messages(v, packet_no, fv, now_nanos, now_secs);
                        let mut k: usize = 0;
                        while k < files.len()
                            invariant
                                k <= files@.len(),
                                fv == files@.map_values(|a: FileAttachment| a@),
                                fm == file_messages(v, packet_no, fv, now_nanos, now_secs),
                                k == 0 ==> self.threads() == t0,
                                k > 0 ==> self.threads() == t0.insert(v, thread_of(t0, v) + fm.take(k as int)),
                                self.peers == old(self).peers,
                                self.task_mappings == old(self).task_mappings,
                                self.selected_peer_ip == old(self).selected_peer_ip,
                                self.active_tab == old(self).active_tab,
                                self.settings_active == old(self).settings_active,
                                self.nudge_shake_ms == old(self).nudge_shake_ms,
                                self.new_message_text == old(self).new_message_text,
                                settings_unchanged(*self, *old(self)),
                            decreases files@.len() - k,
                        {
                            let f = &files[k];
                            let ghost before = self.threads();
                            self.push_message(
                                v,
                                Message {
                                    id: now_nanos,
                                    sender_ip: v,
                                    content: f.name.clone(),
                                    timestamp: now_secs,
                                    is_outgoing: false,
                                    file: Some(
                                        FileAttachment {
                                            id: f.id,
                                            name: f.name.clone(),
                                            size: f.size,
                                            mtime: f.mtime,
                                            file_type: f.file_type,
                                            progress: f.progress,
                                            status: f.status,
                                        },
                                    ),
                                    packet_no: Some(packet_no),
                                },
                            );
                            proof {
                                assert(fm[k as int].file == Some(f@));
                                assert(fm.take(k + 1) =~= fm.take(k as int).push(fm[k as int]));
                                if k == 0 {
                                    assert(fm.take(1) =~= seq![fm[0]]);
                                    assert(thread_of(t0, v) + fm.take(1) =~= thread_of(t0, v).push(fm[0]));
                                } else {
                                    assert(thread_of(before, v) == thread_of(t0, v) + fm.take(k as int));
                                    assert((thread_of(t0, v) + fm.take(k as int)).push(fm[k as int]) =~= thread_of(t0, v) + fm.take(k + 1));
                                }
                                assert(self.threads() =~= t0.insert(v, thread_of(t0, v) + fm.take(k + 1)));
                            }
                            k = k + 1;
                        }
                        assert(fm.take(files@.len() as int) =~= fm);
                    },
                    None => {},
                }
            },
            CoreEvent::WindowKnock { sender_ip, username } => {
                match parse_ipv4(sender_ip.as_str()) {
                    Some(v) => {
                        if self.preferences.screen_nudges_enabled {
                            self.nudge_shake_ms = NUDGE_SHAKE_MS;
                        }
                        let mut line = String::new();
                        push_str(&mut line, "* ");
                        push_str(&mut line, username.as_str());
                        push_str(&mut line, " 发送了一个窗口抖动 *");
                        self.push_message(
                            v,
                            Message {
                                id: now_nanos,
                                sender_ip: v,
                                content: line,
                                timestamp: now_secs,
                                is_outgoing: false,
                                file: None,
                                packet_no: None,
                            },
                        );
                    },
                    None => {},
                }
            },
            CoreEvent::PeerTyping { .. } => {},
            CoreEvent::TransferStarted { task_id, peer_ip, file_name, .. } => {
                match parse_ipv4(peer_ip.as_str()) {
                    Some(v) => {
                        let ghost tk = self.tasks();
                        self.task_mappings.insert(task_id, (v, file_name.clone()));
                        assert(self.tasks() =~= tk.insert(task_id, (v, file_name@)));
                        self.apply_transfer(v, &file_name, None, TransferStatus::Transferring);
                    },
                    None => {},
                }
            },
            CoreEvent::TransferProgress { task_id, progress, status } => {
                match self.task_mappings.get(&task_id) {
                    Some(entry) => {
                        let v = entry.0;
                        let name = entry.1.clone();
                        assert(self.tasks()[task_id] == (v, name@));
                        self.apply_transfer(v, &name, Some(progress), status);
                    },
                    None => {},
                }
            },
        }
    }

    /// Takes in an engine event at the time the caller read (as for
    /// `send_chat_message`); the selection, tab, settings page, draft and
    /// settings stay as they are.
    pub fn handle_event(&mut self, event: CoreEvent, now_nanos: Option<i64>, now_secs: i64)
        ensures
            (final(self).peer_views(), final(self).threads(), final(self).tasks(), final(self).nudge_shake_ms)
                == after_event(*old(self), event@, line_id(now_nanos), now_secs),
            final(self).selected_peer_ip == old(self).selected_peer_ip,
            final(self).active_tab == old(self).active_tab,
            final(self).settings_active == old(self).settings_active,
            final(self).new_message_text == old(self).new_message_text,
            settings_unchanged(*final(self), *old(self)),
    {
        let id = line_id_exec(now_nanos);
        self.handle_event_at(event, id, now_secs);
    }
}


/// What the front end hands on after the settings changed: the settings to
/// store and, for a new identity, the command for the engine.
#[derive(Debug)]
pub struct ConfigSync {
    pub writes: Vec<(String, String)>,
    pub command: Option<CoreCommand>,
}

impl AppState {
    /// Takes over edited settings once the settings page is closed: a
    /// changed user or host name is stored (`username`, `hostname`) and
    /// announced, a changed download directory is stored
    /// (`download_dir`); what was taken over is remembered as synced.
    pub fn sync_config(&mut self) -> (res: ConfigSync)
        ensures
            ({
                let ident = !old(self).settings_active && (old(self).identity.username@
                    != old(self).last_synced_username@ || old(self).identity.hostname@
                    != old(self).last_synced_hostname@);
                let dir = !old(self).settings_active && old(self).preferences.download_dir@
                    != old(self).last_synced_download_dir@;
                &&& ident ==> final(self).last_synced_username@ == old(self).identity.username@
                    && final(self).last_synced_hostname@ == old(self).identity.hostname@
                &&& !ident ==> final(self).last_synced_username == old(self).last_synced_username
                    && final(self).last_synced_hostname == old(self).last_synced_hostname
                &&& dir ==> final(self).last_synced_download_dir@ == old(self).preferences.download_dir@
                &&& !dir ==> final(self).last_synced_download_dir == old(self).last_synced_download_dir
                &&& res.writes@.len() == (if ident { 2nat } else { 0nat }) + (if dir { 1nat } else { 0nat })
                &&& ident ==> res.writes@[0].0@ == "username"@ && res.writes@[0].1@
                    == old(self).identity.username@ && res.writes@[1].0@ == "hostname"@
                    && res.writes@[1].1@ == old(self).identity.hostname@
                &&& dir ==> res.writes@[res.writes@.len() - 1].0@ == "download_dir"@
                    && res.writes@[res.writes@.len() - 1].1@ == old(self).preferences.download_dir@
                &&& ident ==> (res.command matches Some(CoreCommand::UpdateIdentity { username, hostname })
                    && username@ == old(self).identity.username@ && hostname@
                    == old(self).identity.hostname@)
                &&& !ident ==> res.command is None
            }),
            final(self).identity == old(self).identity,
            final(self).preferences == old(self).preferences,
            final(self).networking == old(self).networking,
            final(self).peers == old(self).peers,
            final(self).messages == old(self).messages,
            final(self).task_mappings == old(self).task_mappings,
            final(self).settings_active == old(self).settings_active,
            final(self).selected_peer_ip == old(self).selected_peer_ip,
            final(self).active_tab == old(self).active_tab,
            final(self).new_message_text == old(self).new_message_text,
            final(self).nudge_shake_ms == old(self).nudge_shake_ms,
            final(self).minimized_to_tray == old(self).minimized_to_tray,
            final(self).new_subnet_text == old(self).new_subnet_text,
            final(self).file_to_share_path == old(self).file_to_share_path,
            final(self).show_share_file_dialog == old(self).show_share_file_dialog,
    {
        let mut writes: Vec<(String, String)> = Vec::new();
        let mut command: Option<CoreCommand> = None;
        if !self.settings_active {
            if self.identity.username != self.last_synced_username
                || self.identity.hostname != self.last_synced_hostname {
                self.last_synced_username = self.identity.username.clone();
                self.last_synced_hostname = self.identity.hostname.clone();
                writes.push((String::from_str("username"), self.identity.username.clone()));
                writes.push((String::from_str("hostname"), self.identity.hostname.clone()));
                command = Some(
                    CoreCommand::UpdateIdentity {
                        username: self.identity.username.clone(),
                        hostname: self.identity.hostname.clone(),
                    },
                );
            }
            if self.preferences.download_dir != self.last_synced_download_dir {
                self.last_synced_download_dir = self.preferences.download_dir.clone();
                writes.push((String::from_str("download_dir"), self.preferences.download_dir.clone()));
            }
        }
        ConfigSync { writes, command }
    }

    /// Counts the window shake down by `elapsed_ms` milliseconds.
    pub fn tick_nudge(&mut self, elapsed_ms: u32)
        ensures
            final(self).nudge_shake_ms == if old(self).nudge_shake_ms > elapsed_ms {
                (old(self).nudge_shake_ms - elapsed_ms) as u32
            } else {
                0
            },
            final(self).messages == old(self).messages,
            final(self).peers == old(self).peers,
            settings_unchanged(*final(self), *old(self)),
    {
        self.nudge_shake_ms = self.nudge_shake_ms.saturating_sub(elapsed_ms);
    }

    /// Whether a window shake is under way.
    pub fn is_shaking(&self) -> (res: bool)
        ensures
            res == (self.nudge_shake_ms > 0),
    {
        self.nudge_shake_ms > 0
    }
}


/// A progress report for a known transfer reaches its file cards: in the
/// conversation with the transfer's peer, every line whose attachment is
/// the transfer's file takes the report's status and progress, keeping
/// the rest of the attachment, and every other line stays as it was.
pub proof fn lemma_progress_reaches_file_cards(
    s: AppState,
    task_id: i64,
    progress: Progress,
    status: TransferStatus,
    n: i64,
    secs: i64,
)
    requires
        s.tasks().contains_key(task_id),
        s.threads().contains_key(s.tasks()[task_id].0),
    ensures
        ({
            let ip = s.tasks()[task_id].0;
            let name = s.tasks()[task_id].1;
            let before = s.threads()[ip];
            let after = after_event(
                s,
                EventModel::TransferProgress { task_id, progress, status },
                n,
                secs,
            ).1;
            &&& after.contains_key(ip)
            &&& after[ip].len() == before.len()
            &&& forall|k: int|
                0 <= k < before.len() ==> match (#[trigger] before[k]).file {
                    Some(f) => if f.name == name {
                        after[ip][k] == (MessageModel {
                            file: Some(AttachmentModel { status, progress, ..f }),
                            ..before[k]
                        })
                    } else {
                        after[ip][k] == before[k]
                    },
                    None => after[ip][k] == before[k],
                }
        }),
{
}

} // verus!
