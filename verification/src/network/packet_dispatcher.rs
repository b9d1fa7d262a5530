//! What the node does with a received packet: duplicates are dropped,
//! peers are noted, and each command has its handler. Handling yields a
//! list of actions that the engine performs in order.
use vstd::prelude::*;
use crate::numfmt::{dec_repr, parse_uint, parse_uint_chars, push_dec};
use crate::protocol::codec::{attachment_views, IPMsgPacket, PacketModel};
use crate::protocol::message::{
    clipboard_only, get_clipboard_downloads, incoming_attachments, incoming_text,
    parse_incoming_message,
};
use crate::protocol::{
    IPMSG_ANSENTRY, IPMSG_BR_ENTRY, IPMSG_BR_EXIT, IPMSG_FILEATTACHOPT, IPMSG_INPUTING,
    IPMSG_INPUT_END, IPMSG_KNOCK, IPMSG_RECVMSG, IPMSG_SENDCHECKOPT, IPMSG_SENDMSG,
};
use crate::text::{chars_of, trim_bounds, trim_ws};
use crate::types::{
    AttachmentModel, CoreEvent, EventModel, FileAttachment, FileDownloadRequest, RequestModel,
};
use super::validation::{sanitize_username, sanitized_username};

verus! {

/// Something the engine is asked to do after a packet was handled.
#[derive(Debug, Clone)]
pub enum NetAction {
    /// Send a packet with this command and extra field to a peer.
    Send { to_ip: String, cmd: u32, extra: String },
    /// Publish an event.
    Emit(CoreEvent),
    /// Complete the wait for the acknowledgement of this packet number.
    Ack(u32),
    /// Fetch an inline clipboard image; the save path is the file name,
    /// relative to the image cache directory.
    FetchClipboard(FileDownloadRequest),
}

/// The abstract value of an action.
pub enum ActionModel {
    Send { to_ip: Seq<char>, cmd: u32, extra: Seq<char> },
    Emit(EventModel),
    Ack(u32),
    FetchClipboard(RequestModel),
}

impl View for NetAction {
    type V = ActionModel;

    open spec fn view(&self) -> ActionModel {
        match self {
            NetAction::Send { to_ip, cmd, extra } => ActionModel::Send {
                to_ip: to_ip@,
                cmd: *cmd,
                extra: extra@,
            },
            NetAction::Emit(e) => ActionModel::Emit(e@),
            NetAction::Ack(n) => ActionModel::Ack(*n),
            NetAction::FetchClipboard(r) => ActionModel::FetchClipboard(r@),
        }
    }
}

/// The abstract values of a list of actions.
pub open spec fn action_views(l: Seq<NetAction>) -> Seq<ActionModel> {
    l.map_values(|a: NetAction| a@)
}

/// Where a packet came from and what the handlers need to know of the
/// local node.
#[derive(Debug, Clone)]
pub struct PacketContext {
    /// The sender's address as text.
    pub peer_ip: String,
    /// The sender's IPv4 address as a number (0 when it is not IPv4).
    pub ip_u32: u32,
    /// The local user name, sent in answers to presence announcements.
    pub my_username: String,
    /// When the packet was received, in milliseconds since the epoch.
    pub now_millis: i64,
}

impl PacketContext {
    /// The sender's address as text.
    pub fn peer_ip(&self) -> (res: String)
        ensures
            res@ == self.peer_ip@,
    {
        self.peer_ip.clone()
    }

    /// The sender's IPv4 address as a number.
    pub fn ip_u32(&self) -> (res: u32)
        ensures
            res == self.ip_u32,
    {
        self.ip_u32
    }
}

/// The base command of a packet.
pub open spec fn base(p: PacketModel) -> u32 {
    p.cmd & 0xFF
}

pub open spec fn send_check(p: PacketModel) -> bool {
    p.cmd & IPMSG_SENDCHECKOPT == IPMSG_SENDCHECKOPT
}

pub open spec fn file_attach(p: PacketModel) -> bool {
    p.cmd & IPMSG_FILEATTACHOPT == IPMSG_FILEATTACHOPT
}

/// The acknowledgement of a message: `RECVMSG` with the packet number.
pub open spec fn ack_action(ip: Seq<char>, p: PacketModel) -> ActionModel {
    ActionModel::Send { to_ip: ip, cmd: IPMSG_RECVMSG, extra: dec_repr(p.packet_no as nat) }
}

/// A presence announcement is answered with `ANSENTRY` and the local user
/// name; an answer is not answered.
pub open spec fn br_entry_actions(ip: Seq<char>, my_username: Seq<char>, p: PacketModel) -> Seq<
    ActionModel,
> {
    if base(p) == IPMSG_BR_ENTRY {
        seq![ActionModel::Send { to_ip: ip, cmd: IPMSG_ANSENTRY, extra: my_username }]
    } else {
        seq![]
    }
}

/// The next task number after `t` (task numbers wrap around).
pub open spec fn next_task(t: i64) -> i64 {
    vstd::wrapping::i64_specs::wrapping_add(t, 1)
}

/// The task number `k` steps after `t`.
pub open spec fn task_after(t: i64, k: nat) -> i64
    decreases k,
{
    if k == 0 {
        t
    } else {
        next_task(task_after(t, (k - 1) as nat))
    }
}

/// For each clipboard image, in order: a transfer-started event under the
/// next task number, and the fetch of the image.
pub open spec fn clipboard_fetches(
    ip: Seq<char>,
    packet_no: u32,
    atts: Seq<AttachmentModel>,
    first_task: i64,
) -> Seq<ActionModel>
    decreases atts.len(),
{
    if atts.len() == 0 {
        seq![]
    } else {
        let a = atts.last();
        let t = task_after(first_task, (atts.len() - 1) as nat);
        clipboard_fetches(ip, packet_no, atts.drop_last(), first_task) + seq![
            ActionModel::Emit(
                EventModel::TransferStarted {
                    task_id: t,
                    peer_ip: ip,
                    file_name: a.name,
                    file_size: a.size as i64,
                    is_sending: false,
                },
            ),
            ActionModel::FetchClipboard(
                RequestModel {
                    peer_ip: ip,
                    packet_no,
                    file_id: a.id,
                    save_path: a.name,
                    file_size: a.size,
                    is_directory: false,
                    task_id: t,
                },
            ),
        ]
    }
}

/// What a chat message yields: the message event; when it carries files,
/// the attachment event and the fetches of its clipboard images; and the
/// acknowledgement when the sender asks for one.
pub open spec fn send_msg_actions(
    ip: Seq<char>,
    now: i64,
    p: PacketModel,
    first_task: i64,
) -> Seq<ActionModel> {
    let atts = incoming_attachments(p);
    let message = seq![
        ActionModel::Emit(
            EventModel::MessageReceived {
                id: 0,
                sender_ip: ip,
                content: incoming_text(p),
                timestamp: now,
                username: p.username,
            },
        ),
    ];
    let files = if file_attach(p) && atts.len() > 0 {
        seq![
            ActionModel::Emit(
                EventModel::FileAttachmentsReceived {
                    sender_ip: ip,
                    packet_no: p.packet_no,
                    files: atts,
                },
            ),
        ] + clipboard_fetches(ip, p.packet_no, clipboard_only(atts), first_task)
    } else {
        seq![]
    };
    let ack = if send_check(p) {
        seq![ack_action(ip, p)]
    } else {
        seq![]
    };
    message + files + ack
}

/// How many task numbers a chat message takes: one per clipboard image
/// when it carries files.
pub open spec fn send_msg_tasks(p: PacketModel) -> nat {
    let atts = incoming_attachments(p);
    if file_attach(p) && atts.len() > 0 {
        clipboard_only(atts).len()
    } else {
        0
    }
}

/// An acknowledgement completes the wait for the packet whose number its
/// trimmed extra field holds.
pub open spec fn recv_msg_actions(p: PacketModel) -> Seq<ActionModel> {
    match parse_uint(trim_ws(p.extra), 10, u32::MAX as nat) {
        Some(n) => seq![ActionModel::Ack(n as u32)],
        None => seq![],
    }
}

/// A peer that leaves is reported offline.
pub open spec fn br_exit_actions(ip: Seq<char>, p: PacketModel) -> Seq<ActionModel> {
    seq![
        ActionModel::Emit(
            EventModel::PeerStatusChanged {
                ip,
                username: p.username,
                hostname: p.hostname,
                nickname: None,
                online: false,
            },
        ),
    ]
}

/// A window knock is reported.
pub open spec fn knock_actions(ip: Seq<char>, p: PacketModel) -> Seq<ActionModel> {
    seq![ActionModel::Emit(EventModel::WindowKnock { sender_ip: ip, username: p.username })]
}

/// Typing notices: `INPUTING` starts, `INPUT_END` stops.
pub open spec fn input_actions(ip: Seq<char>, p: PacketModel) -> Seq<ActionModel> {
    seq![ActionModel::Emit(EventModel::PeerTyping { sender_ip: ip, typing: base(p) == IPMSG_INPUTING })]
}

/// A packet with the base command `BR_ENTRY`.
pub struct BrEntryHandler;

/// A packet with the base command `SENDMSG`.
pub struct SendMsgHandler;

/// A packet with the base command `RECVMSG`.
pub struct RecvMsgHandler;

/// A packet with the base command `BR_EXIT`.
pub struct BrExitHandler;

/// A packet with the base command `KNOCK`.
pub struct KnockHandler;

/// A packet with the base command `INPUTING` or `INPUT_END`.
pub struct InputHandler;

fn send_to(ip: &String, cmd: u32, extra: String) -> (res: NetAction)
    ensures
        res@ == (ActionModel::Send { to_ip: ip@, cmd, extra: extra@ }),
{
    NetAction::Send { to_ip: ip.clone(), cmd, extra }
}

fn ack_of(ip: &String, packet_no: u32) -> (res: NetAction)
    ensures
        res@ == (ActionModel::Send { to_ip: ip@, cmd: IPMSG_RECVMSG, extra: dec_repr(packet_no as nat) }),
{
    let mut extra = String::new();
    push_dec(&mut extra, packet_no as u64);
    assert(extra@ =~= dec_repr(packet_no as nat));
    send_to(ip, IPMSG_RECVMSG, extra)
}

impl BrEntryHandler {
    pub fn handle(&self, ctx: &PacketContext, packet: &IPMsgPacket) -> (res: Vec<NetAction>)
        ensures
            action_views(res@) == br_entry_actions(ctx.peer_ip@, ctx.my_username@, packet@),
    {
        let mut res: Vec<NetAction> = Vec::new();
        if packet.command_base() == IPMSG_BR_ENTRY {
            res.push(send_to(&ctx.peer_ip, IPMSG_ANSENTRY, ctx.my_username.clone()));
        }
        assert(action_views(res@) =~= br_entry_actions(ctx.peer_ip@, ctx.my_username@, packet@));
        res
    }
}

impl RecvMsgHandler {
    pub fn handle(&self, packet: &IPMsgPacket) -> (res: Vec<NetAction>)
        ensures
            action_views(res@) == recv_msg_actions(packet@),
    {
        let mut res: Vec<NetAction> = Vec::new();
        let cs = chars_of(packet.extra.as_str());
        let (a, b) = trim_bounds(cs.as_slice());
        let t = vstd::slice::slice_subrange(cs.as_slice(), a, b);
        match parse_uint_chars(t, 10, 0xFFFF_FFFF) {
            Some(n) => res.push(NetAction::Ack(n as u32)),
            None => {},
        }
        assert(action_views(res@) =~= recv_msg_actions(packet@));
        res
    }
}

impl BrExitHandler {
    pub fn handle(&self, ctx: &PacketContext, packet: &IPMsgPacket) -> (res: Vec<NetAction>)
        ensures
            action_views(res@) == br_exit_actions(ctx.peer_ip@, packet@),
    {
        let mut res: Vec<NetAction> = Vec::new();
        res.push(
            NetAction::Emit(
                CoreEvent::PeerStatusChanged {
                    ip: ctx.peer_ip.clone(),
                    username: packet.username.clone(),
                    hostname: packet.hostname.clone(),
                    nickname: None,
                    online: false,
                },
            ),
        );
        assert(action_views(res@) =~= br_exit_actions(ctx.peer_ip@, packet@));
        res
    }
}

impl KnockHandler {
    pub fn handle(&self, ctx: &PacketContext, packet: &IPMsgPacket) -> (res: Vec<NetAction>)
        ensures
            action_views(res@) == knock_actions(ctx.peer_ip@, packet@),
    {
        let mut res: Vec<NetAction> = Vec::new();
        res.push(
            NetAction::Emit(
                CoreEvent::WindowKnock { sender_ip: ctx.peer_ip.clone(), username: packet.username.clone() },
            ),
        );
        assert(action_views(res@) =~= knock_actions(ctx.peer_ip@, packet@));
        res
    }
}

impl InputHandler {
    pub fn handle(&self, ctx: &PacketContext, packet: &IPMsgPacket) -> (res: Vec<NetAction>)
        ensures
            action_views(res@) == input_actions(ctx.peer_ip@, packet@),
            res@.len() == 1,
            res@[0] matches NetAction::Emit(CoreEvent::PeerTyping { sender_ip, typing })
                && sender_ip@ == ctx.peer_ip@ && (packet.cmd & 0xFF == IPMSG_INPUTING ==> typing)
                && (packet.cmd & 0xFF == IPMSG_INPUT_END ==> !typing),
    {
        let mut res: Vec<NetAction> = Vec::new();
        let typing = packet.command_base() == IPMSG_INPUTING;
        res.push(
            NetAction::Emit(CoreEvent::PeerTyping { sender_ip: ctx.peer_ip.clone(), typing }),
        );
        assert(action_views(res@) =~= input_actions(ctx.peer_ip@, packet@));
        res
    }
}


impl SendMsgHandler {
    /// Handles a chat message; the clipboard images it offers take task
    /// numbers from `next_task_id` on.
    pub fn handle(&self, ctx: &PacketContext, packet: &IPMsgPacket, next_task_id: &mut i64) -> (res:
        Vec<NetAction>)
        ensures
            action_views(res@) == send_msg_actions(
                ctx.peer_ip@,
                ctx.now_millis,
                packet@,
                *old(next_task_id),
            ),
            *final(next_task_id) == task_after(*old(next_task_id), send_msg_tasks(packet@)),
    {
        let ghost first = *next_task_id;
        let ghost ip = ctx.peer_ip@;
        let ghost p = packet@;
        let (text, atts) = parse_incoming_message(packet);
        let mut res: Vec<NetAction> = Vec::new();
        res.push(
            NetAction::Emit(
                CoreEvent::MessageReceived {
                    id: 0,
                    sender_ip: ctx.peer_ip.clone(),
                    content: text,
                    timestamp: ctx.now_millis,
                    username: packet.username.clone(),
                },
            ),
        );
        let ghost message_part = action_views(res@);
        let ghost atts_spec = incoming_attachments(p);
        assert(message_part =~= seq![
            ActionModel::Emit(
                EventModel::MessageReceived {
                    id: 0,
                    sender_ip: ip,
                    content: incoming_text(p),
                    timestamp: ctx.now_millis,
                    username: p.username,
                },
            ),
        ]);
        let ghost files_spec = if file_attach(p) && atts_spec.len() > 0 {
            seq![
                ActionModel::Emit(
                    EventModel::FileAttachmentsReceived {
                        sender_ip: ip,
                        packet_no: p.packet_no,
                        files: atts_spec,
                    },
                ),
            ] + clipboard_fetches(ip, p.packet_no, clipboard_only(atts_spec), first)
        } else {
            Seq::<ActionModel>::empty()
        };
        if packet.is_file_attach() && atts.len() > 0 {
            let clips = get_clipboard_downloads(atts.as_slice());
            let ghost atts_view = attachment_views(atts@);
            let ghost clip_view = attachment_views(clips@);
            res.push(
                NetAction::Emit(
                    CoreEvent::FileAttachmentsReceived {
                        sender_ip: ctx.peer_ip.clone(),
                        packet_no: packet.packet_no,
                        files: atts,
                    },
                ),
            );
            let ghost head = action_views(res@);
            assert(head =~= message_part + seq![
                ActionModel::Emit(
                    EventModel::FileAttachmentsReceived {
                        sender_ip: ip,
                        packet_no: p.packet_no,
                        files: atts_view,
                    },
                ),
            ]);
            let mut k: usize = 0;
            assert(clip_view.take(0) =~= Seq::<AttachmentModel>::empty());
            assert(head + clipboard_fetches(ip, p.packet_no, clip_view.take(0), first) =~= head);
            while k < clips.len()
                invariant
                    k <= clips@.len(),
                    clip_view == attachment_views(clips@),
                    ip == ctx.peer_ip@,
                    p == packet@,
                    action_views(res@) == head + clipboard_fetches(
                        ip,
                        p.packet_no,
                        clip_view.take(k as int),
                        first,
                    ),
                    *next_task_id == task_after(first, k as nat),
                decreases clips@.len() - k,
            {
                let a = &clips[k];
                let t = *next_task_id;
                *next_task_id = t.wrapping_add(1);
                let ghost before = action_views(res@);
                res.push(
                    NetAction::Emit(
                        CoreEvent::TransferStarted {
                            task_id: t,
                            peer_ip: ctx.peer_ip.clone(),
                            file_name: a.name.clone(),
                            file_size: a.size as i64,
                            is_sending: false,
                        },
                    ),
                );
                res.push(
                    NetAction::FetchClipboard(
                        FileDownloadRequest {
                            peer_ip: ctx.peer_ip.clone(),
                            packet_no: packet.packet_no,
                            file_id: a.id,
                            save_path: a.name.clone(),
                            file_size: a.size,
                            is_directory: false,
                            task_id: t,
                        },
                    ),
                );
                proof {
                    let cv = clip_view.take(k + 1);
                    assert(cv.drop_last() =~= clip_view.take(k as int));
                    assert(cv.last() == a@);
                    assert(action_views(res@) =~= before + seq![
                        ActionModel::Emit(
                            EventModel::TransferStarted {
                                task_id: t,
                                peer_ip: ip,
                                file_name: a.name@,
                                file_size: a.size as i64,
                                is_sending: false,
                            },
                        ),
                        ActionModel::FetchClipboard(
                            RequestModel {
                                peer_ip: ip,
                                packet_no: p.packet_no,
                                file_id: a.id,
                                save_path: a.name@,
                                file_size: a.size,
                                is_directory: false,
                                task_id: t,
                            },
                        ),
                    ]);
                }
                k = k + 1;
            }
            assert(clip_view.take(clips@.len() as int) =~= clip_view);
            assert(action_views(res@) =~= message_part + files_spec);
        } else {
            assert(action_views(res@) =~= message_part + files_spec);
        }
        let ghost before_ack = action_views(res@);
        if packet.is_send_check() {
            res.push(ack_of(&ctx.peer_ip, packet.packet_no));
        }
        assert(action_views(res@) =~= send_msg_actions(ip, ctx.now_millis, p, first));
        res
    }
}


/// How many recent packets are remembered to recognise duplicates.
pub const RECENT_PACKETS_CAPACITY: usize = 1000;

/// The packet with its user and host names sanitised.
pub open spec fn sanitized_packet(p: PacketModel) -> PacketModel {
    PacketModel {
        username: sanitized_username(p.username),
        hostname: sanitized_username(p.hostname),
        ..p
    }
}

/// The nickname that a presence announcement or its answer carries in its
/// extra field, sanitised; none for other packets or a blank field.
pub open spec fn nickname_of(p: PacketModel) -> Option<Seq<char>> {
    if trim_ws(p.extra).len() > 0 && (base(p) == IPMSG_BR_ENTRY || base(p) == IPMSG_ANSENTRY) {
        Some(sanitized_username(trim_ws(p.extra)))
    } else {
        None
    }
}

/// Every packet but a farewell reports its sender online.
pub open spec fn status_actions(ip: Seq<char>, p: PacketModel) -> Seq<ActionModel> {
    if base(p) != IPMSG_BR_EXIT {
        seq![
            ActionModel::Emit(
                EventModel::PeerStatusChanged {
                    ip,
                    username: p.username,
                    hostname: p.hostname,
                    nickname: nickname_of(p),
                    online: true,
                },
            ),
        ]
    } else {
        seq![]
    }
}

/// What the handler of the packet's base command yields; nothing for a
/// command without a handler.
pub open spec fn handler_actions(
    ip: Seq<char>,
    my_username: Seq<char>,
    now: i64,
    p: PacketModel,
    first_task: i64,
) -> Seq<ActionModel> {
    let b = base(p);
    if b == IPMSG_BR_ENTRY || b == IPMSG_ANSENTRY {
        br_entry_actions(ip, my_username, p)
    } else if b == IPMSG_SENDMSG {
        send_msg_actions(ip, now, p, first_task)
    } else if b == IPMSG_RECVMSG {
        recv_msg_actions(p)
    } else if b == IPMSG_BR_EXIT {
        br_exit_actions(ip, p)
    } else if b == IPMSG_KNOCK {
        knock_actions(ip, p)
    } else if b == IPMSG_INPUTING || b == IPMSG_INPUT_END {
        input_actions(ip, p)
    } else {
        seq![]
    }
}

/// The task numbers that the handler takes.
pub open spec fn handler_tasks(p: PacketModel) -> nat {
    if base(p) == IPMSG_SENDMSG {
        send_msg_tasks(p)
    } else {
        0
    }
}

/// A repeated chat message is only acknowledged again, when the sender
/// asks for acknowledgements; any other repeated packet yields nothing.
pub open spec fn duplicate_actions(ip: Seq<char>, p: PacketModel) -> Seq<ActionModel> {
    if base(p) == IPMSG_SENDMSG && send_check(p) {
        seq![ack_action(ip, p)]
    } else {
        seq![]
    }
}

/// The key under which a packet is remembered: sender and packet number.
pub open spec fn packet_key(ip_u32: u32, p: PacketModel) -> (u32, u32) {
    (ip_u32, p.packet_no)
}

/// The remembered packets after `key` is added: the oldest is forgotten
/// when there are more than 1000.
pub open spec fn remembered(cache: Seq<(u32, u32)>, key: (u32, u32)) -> Seq<(u32, u32)> {
    let c = cache.push(key);
    if c.len() > RECENT_PACKETS_CAPACITY {
        c.drop_first()
    } else {
        c
    }
}

/// What dispatching a packet yields, given the remembered packets.
pub open spec fn dispatch_actions(
    cache: Seq<(u32, u32)>,
    ctx_ip: Seq<char>,
    ip_u32: u32,
    my_username: Seq<char>,
    now: i64,
    raw: PacketModel,
    first_task: i64,
) -> Seq<ActionModel> {
    let p = sanitized_packet(raw);
    if cache.contains(packet_key(ip_u32, p)) {
        duplicate_actions(ctx_ip, p)
    } else {
        status_actions(ctx_ip, p) + handler_actions(ctx_ip, my_username, now, p, first_task)
    }
}

/// Routes received packets to their handlers, once per packet.
pub struct PacketDispatcher {
    received_packets_cache: Vec<(u32, u32)>,
}

impl View for PacketDispatcher {
    type V = Seq<(u32, u32)>;

    closed spec fn view(&self) -> Seq<(u32, u32)> {
        self.received_packets_cache@
    }
}

impl PacketDispatcher {
    /// At most 1000 packets are remembered.
    pub closed spec fn wf(&self) -> bool {
        self.received_packets_cache@.len() <= RECENT_PACKETS_CAPACITY
    }

    /// A dispatcher that remembers no packet yet.
    pub fn new() -> (res: PacketDispatcher)
        ensures
            res.wf(),
            res@ == Seq::<(u32, u32)>::empty(),
    {
        PacketDispatcher { received_packets_cache: Vec::new() }
    }

    fn seen(&self, key: (u32, u32)) -> (res: bool)
        ensures
            res == self@.contains(key),
    {
        let mut i: usize = 0;
        while i < self.received_packets_cache.len()
            invariant
                i <= self@.len(),
                forall|j: int| 0 <= j < i ==> self@[j] != key,
            decreases self@.len() - i,
        {
            let k = self.received_packets_cache[i];
            if k.0 == key.0 && k.1 == key.1 {
                assert(self@[i as int] == key);
                return true;
            }
            i = i + 1;
        }
        false
    }

    fn remember(&mut self, key: (u32, u32))
        requires
            old(self).wf(),
        ensures
            final(self).wf(),
            final(self)@ == remembered(old(self)@, key),
    {
        self.received_packets_cache.push(key);
        if self.received_packets_cache.len() > RECENT_PACKETS_CAPACITY {
            self.received_packets_cache.remove(0);
            assert(self@ =~= remembered(old(self)@, key));
        }
    }

    /// Handles a received packet: names are sanitised, a packet already
    /// seen from the same sender is only acknowledged (when it asks for
    /// it), any other packet reports its sender and goes to the handler of
    /// its command. Clipboard images take task numbers from `next_task_id`.
    pub fn dispatch(&mut self, ctx: &PacketContext, packet: IPMsgPacket, next_task_id: &mut i64) -> (res:
        Vec<NetAction>)
        requires
            old(self).wf(),
        ensures
            final(self).wf(),
            action_views(res@) == dispatch_actions(
                old(self)@,
                ctx.peer_ip@,
                ctx.ip_u32,
                ctx.my_username@,
                ctx.now_millis,
                packet@,
                *old(next_task_id),
            ),
            old(self)@.contains(packet_key(ctx.ip_u32, packet@)) ==> final(self)@ == old(self)@
                && *final(next_task_id) == *old(next_task_id),
            !old(self)@.contains(packet_key(ctx.ip_u32, packet@)) ==> final(self)@ == remembered(
                old(self)@,
                packet_key(ctx.ip_u32, packet@),
            ) && *final(next_task_id) == task_after(
                *old(next_task_id),
                handler_tasks(sanitized_packet(packet@)),
            ),
    {
        let ghost raw = packet@;
        let mut packet = packet;
        packet.username = sanitize_username(packet.username.as_str());
        packet.hostname = sanitize_username(packet.hostname.as_str());
        let ghost p = packet@;
        assert(p == sanitized_packet(raw));
        let cmd_base = packet.command_base();
        let key = (ctx.ip_u32, packet.packet_no);
        if self.seen(key) {
            let mut res: Vec<NetAction> = Vec::new();
            if cmd_base == IPMSG_SENDMSG && packet.is_send_check() {
                res.push(ack_of(&ctx.peer_ip, packet.packet_no));
            }
            assert(action_views(res@) =~= duplicate_actions(ctx.peer_ip@, p));
            return res;
        }
        self.remember(key);
        let cs = chars_of(packet.extra.as_str());
        let (a, b) = trim_bounds(cs.as_slice());
        let nickname = if a < b && (cmd_base == IPMSG_BR_ENTRY || cmd_base == IPMSG_ANSENTRY) {
            let t = crate::text::string_from_chars(vstd::slice::slice_subrange(cs.as_slice(), a, b));
            Some(sanitize_username(t.as_str()))
        } else {
            None
        };
        assert(crate::types::opt_view(nickname) == nickname_of(p));
        let mut res: Vec<NetAction> = Vec::new();
        if cmd_base != IPMSG_BR_EXIT {
            res.push(
                NetAction::Emit(
                    CoreEvent::PeerStatusChanged {
                        ip: ctx.peer_ip.clone(),
                        username: packet.username.clone(),
                        hostname: packet.hostname.clone(),
                        nickname,
                        online: true,
                    },
                ),
            );
        }
        assert(action_views(res@) =~= status_actions(ctx.peer_ip@, p));
        let handled = if cmd_base == IPMSG_BR_ENTRY || cmd_base == IPMSG_ANSENTRY {
            BrEntryHandler.handle(ctx, &packet)
        } else if cmd_base == IPMSG_SENDMSG {
            SendMsgHandler.handle(ctx, &packet, next_task_id)
        } else if cmd_base == IPMSG_RECVMSG {
            RecvMsgHandler.handle(&packet)
        } else if cmd_base == IPMSG_BR_EXIT {
            BrExitHandler.handle(ctx, &packet)
        } else if cmd_base == IPMSG_KNOCK {
            KnockHandler.handle(ctx, &packet)
        } else if cmd_base == IPMSG_INPUTING || cmd_base == IPMSG_INPUT_END {
            InputHandler.handle(ctx, &packet)
        } else {
            Vec::new()
        };
        assert(action_views(handled@) =~= handler_actions(
            ctx.peer_ip@,
            ctx.my_username@,
            ctx.now_millis,
            p,
            *old(next_task_id),
        ));
        let ghost before = res@;
        let ghost hv = handled@;
        let mut handled = handled;
        res.append(&mut handled);
        assert(res@ =~= before + hv);
        assert(action_views(res@) =~= action_views(before) + action_views(hv));
        res
    }
}

/// A packet handled once is not handled again: delivered a second time
/// from the same sender, it yields only what a duplicate yields, and the
/// remembered packets stay as they are.
pub proof fn lemma_redelivery_is_duplicate(cache: Seq<(u32, u32)>, ip_u32: u32, raw: PacketModel)
    ensures
        remembered(cache, packet_key(ip_u32, sanitized_packet(raw))).contains(
            packet_key(ip_u32, sanitized_packet(raw)),
        ),
        forall|ctx_ip: Seq<char>, my_username: Seq<char>, now: i64, t: i64|
            #[trigger] dispatch_actions(
                remembered(cache, packet_key(ip_u32, sanitized_packet(raw))),
                ctx_ip,
                ip_u32,
                my_username,
                now,
                raw,
                t,
            ) == duplicate_actions(ctx_ip, sanitized_packet(raw)),
{
    let key = packet_key(ip_u32, sanitized_packet(raw));
    let c = cache.push(key);
    assert(c[c.len() - 1] == key);
    if c.len() > RECENT_PACKETS_CAPACITY {
        assert(c.drop_first()[c.len() - 2] == key);
    }
}


/// A typing notice is passed on as it came: a new packet whose base
/// command is `INPUTING` reports its sender as typing, and one whose base
/// command is `INPUT_END` reports it as no longer typing, never the
/// other way round.
pub proof fn lemma_typing_notices(
    cache: Seq<(u32, u32)>,
    ctx_ip: Seq<char>,
    ip_u32: u32,
    my_username: Seq<char>,
    now: i64,
    p: PacketModel,
    t: i64,
)
    requires
        !cache.contains(packet_key(ip_u32, p)),
    ensures
        p.cmd & 0xFF == IPMSG_INPUTING ==> dispatch_actions(cache, ctx_ip, ip_u32, my_username, now, p, t).contains(
            ActionModel::Emit(EventModel::PeerTyping { sender_ip: ctx_ip, typing: true }),
        ) && !dispatch_actions(cache, ctx_ip, ip_u32, my_username, now, p, t).contains(
            ActionModel::Emit(EventModel::PeerTyping { sender_ip: ctx_ip, typing: false }),
        ),
        p.cmd & 0xFF == IPMSG_INPUT_END ==> dispatch_actions(cache, ctx_ip, ip_u32, my_username, now, p, t).contains(
            ActionModel::Emit(EventModel::PeerTyping { sender_ip: ctx_ip, typing: false }),
        ) && !dispatch_actions(cache, ctx_ip, ip_u32, my_username, now, p, t).contains(
            ActionModel::Emit(EventModel::PeerTyping { sender_ip: ctx_ip, typing: true }),
        ),
{
    let sp = sanitized_packet(p);
    assert(packet_key(ip_u32, sp) == packet_key(ip_u32, p));
    if p.cmd & 0xFF == IPMSG_INPUTING || p.cmd & 0xFF == IPMSG_INPUT_END {
        let typing = p.cmd & 0xFF == IPMSG_INPUTING;
        let a = dispatch_actions(cache, ctx_ip, ip_u32, my_username, now, p, t);
        let st = ActionModel::Emit(
            EventModel::PeerStatusChanged {
                ip: ctx_ip,
                username: sp.username,
                hostname: sp.hostname,
                nickname: nickname_of(sp),
                online: true,
            },
        );
        let ty = ActionModel::Emit(EventModel::PeerTyping { sender_ip: ctx_ip, typing });
        assert(a =~= seq![st, ty]);
        assert(a[1] == ty);
        let other = ActionModel::Emit(EventModel::PeerTyping { sender_ip: ctx_ip, typing: !typing });
        assert forall|i: int| 0 <= i < a.len() implies a[i] != other by {}
    }
}

} // verus!
