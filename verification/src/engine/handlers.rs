//! One handler per front-end command. Each decides, from the engine state
//! and the facts the caller gathered (file metadata, stored settings, the
//! time), what is sent and what is stored; the caller performs it.
use vstd::prelude::*;
use crate::database::{FileTaskRecord, MessageRecord};
use crate::network::discovery::{announce_plan, subnet_broadcast_addrs, subnet_host, subnet_ips};
use crate::network::engine::NetworkEngine;
use crate::network::file_registry::{registered, SharedFileModel};
use crate::network::peer_directory::{ip_number, port_for};
use crate::protocol::codec::{attachment_text, serialize_file_attachment, IPMsgPacket, PacketModel};
use crate::protocol::message::share_line;
use crate::protocol::{
    IPMSG_BR_ENTRY, IPMSG_FILEATTACHOPT, IPMSG_KNOCK, IPMSG_SENDMSG, IPMSG_VERSION,
};
use crate::text::{push_char, push_str};
use crate::types::{
    format_file_size, AttachmentModel, FileAttachment, FileDownloadRequest, Progress, TransferStatus,
    NUDGE_MESSAGE_CONTENT,
};

verus! {

/// A packet to send, with where it goes.
#[derive(Debug, Clone)]
pub struct Outgoing {
    pub to_ip: String,
    pub port: u16,
    pub packet: IPMsgPacket,
}

/// A chat line to send, and the record stored once it went out.
#[derive(Debug, Clone)]
pub struct ChatSend {
    pub outgoing: Outgoing,
    pub record: MessageRecord,
}

/// What the caller found out about a local file.
#[derive(Debug)]
pub struct LocalFile {
    /// Whether the path exists.
    pub exists: bool,
    /// The last component of the path, if it has one.
    pub name: Option<String>,
    /// The size and modification time (seconds since the epoch), or the
    /// text of the error that reading them gave.
    pub metadata: Result<(u64, u64), String>,
}

/// A file offered to a peer: the task record to store and the message
/// that announces the file.
#[derive(Debug, Clone)]
pub struct SharePlan {
    pub task: FileTaskRecord,
    pub outgoing: Outgoing,
}

/// A download to start: the task record to store, the directory to save
/// into, and the request (its save path is the file name within that
/// directory).
#[derive(Debug, Clone)]
pub struct DownloadPlan {
    pub task: FileTaskRecord,
    pub download_dir: String,
    pub request: FileDownloadRequest,
}

/// The packet number `k` after `c` (numbers wrap around).
pub open spec fn packet_no_after(c: u32, k: nat) -> u32 {
    ((c + k) % 0x1_0000_0000) as u32
}

/// The packet the engine sends: version 1 and its identity.
pub open spec fn engine_packet(e: NetworkEngine, packet_no: u32, cmd: u32, extra: Seq<char>) -> PacketModel {
    PacketModel {
        version: IPMSG_VERSION@,
        packet_no,
        username: e.username_view(),
        hostname: e.hostname_view(),
        cmd,
        extra,
    }
}

/// What sending a chat line does: the packet with command `cmd` and
/// `extra` goes to `to_ip` at its known port under the next packet number,
/// and the record of `db_content` sent to `to_ip` at `now_secs` is to be
/// stored once it went out.
pub open spec fn chat_sent(
    e0: NetworkEngine,
    e1: NetworkEngine,
    to_ip: Seq<char>,
    cmd: u32,
    extra: Seq<char>,
    db_content: Seq<char>,
    now_secs: i64,
    res: ChatSend,
) -> bool {
    &&& res.outgoing.to_ip@ == to_ip
    &&& res.outgoing.port == port_for(e0.ports_view(), ip_number(to_ip))
    &&& res.outgoing.packet@ == engine_packet(e0, e0.packet_counter_view(), cmd, extra)
    &&& res.record.id is None
    &&& res.record.sender_ip@ == "0.0.0.0"@
    &&& res.record.receiver_ip@ == to_ip
    &&& res.record.text_content@ == db_content
    &&& res.record.timestamp == now_secs
    &&& res.record.is_read
    &&& e1.packet_counter_view() == vstd::wrapping::u32_specs::wrapping_add(e0.packet_counter_view(), 1)
    &&& e1.task_counter_view() == e0.task_counter_view()
    &&& e1.ports_view() == e0.ports_view()
    &&& e1.files_view() == e0.files_view()
    &&& e1.username_view() == e0.username_view()
    &&& e1.hostname_view() == e0.hostname_view()
    &&& e1.wf() == e0.wf()
}

fn chat_send(
    engine: &mut NetworkEngine,
    to_ip: &str,
    cmd: u32,
    extra: &str,
    db_content: &str,
    now_secs: i64,
) -> (res: ChatSend)
    ensures
        chat_sent(*old(engine), *final(engine), to_ip@, cmd, extra@, db_content@, now_secs, res),
{
    let port = engine.get_peer_port(to_ip);
    let packet_no = engine.next_packet_no();
    let packet = engine.outgoing_packet(packet_no, cmd, extra);
    ChatSend {
        outgoing: Outgoing { to_ip: String::from_str(to_ip), port, packet },
        record: MessageRecord {
            id: None,
            sender_ip: String::from_str("0.0.0.0"),
            receiver_ip: String::from_str(to_ip),
            text_content: String::from_str(db_content),
            timestamp: now_secs,
            is_read: true,
        },
    }
}

/// `CoreCommand::SendMessage`.
pub struct SendMessageHandler;

impl SendMessageHandler {
    /// The chat message `content` to `to_ip` (`SENDMSG`), stored as sent at
    /// `now_secs`.
    pub fn handle(&self, engine: &mut NetworkEngine, to_ip: &str, content: &str, now_secs: i64) -> (res:
        ChatSend)
        ensures
            chat_sent(*old(engine), *final(engine), to_ip@, IPMSG_SENDMSG, content@, content@, now_secs, res),
    {
        chat_send(engine, to_ip, IPMSG_SENDMSG, content, content, now_secs)
    }
}

/// `CoreCommand::SendKnock`.
pub struct SendKnockHandler;

impl SendKnockHandler {
    /// A window knock to `peer_ip` (an empty `KNOCK` packet), stored as the
    /// nudge line sent at `now_secs`.
    pub fn handle(&self, engine: &mut NetworkEngine, peer_ip: &str, now_secs: i64) -> (res: ChatSend)
        ensures
            chat_sent(
                *old(engine),
                *final(engine),
                peer_ip@,
                IPMSG_KNOCK,
                Seq::empty(),
                NUDGE_MESSAGE_CONTENT@,
                now_secs,
                res,
            ),
    {
        proof {
            reveal_strlit("");
        }
        assert(""@ =~= Seq::<char>::empty());
        chat_send(engine, peer_ip, IPMSG_KNOCK, "", NUDGE_MESSAGE_CONTENT, now_secs)
    }
}

/// `CoreCommand::UpdateIdentity`.
pub struct UpdateIdentityHandler;

impl UpdateIdentityHandler {
    /// Announces the new identity from now on; the settings to store are
    /// `username` and `hostname`, in that order.
    pub fn handle(&self, engine: &mut NetworkEngine, username: String, hostname: String) -> (res: Vec<
        (String, String),
    >)
        ensures
            final(engine).username_view() == username@,
            final(engine).hostname_view() == hostname@,
            final(engine).packet_counter_view() == old(engine).packet_counter_view(),
            final(engine).task_counter_view() == old(engine).task_counter_view(),
            final(engine).files_view() == old(engine).files_view(),
            final(engine).ports_view() == old(engine).ports_view(),
            final(engine).wf() == old(engine).wf(),
            res@.len() == 2,
            res@[0].0@ == "username"@ && res@[0].1@ == username@,
            res@[1].0@ == "hostname"@ && res@[1].1@ == hostname@,
    {
        let mut res: Vec<(String, String)> = Vec::new();
        res.push((String::from_str("username"), username.clone()));
        res.push((String::from_str("hostname"), hostname.clone()));
        engine.update_identity(username, hostname);
        res
    }
}

/// `CoreCommand::RegisterSharedFile`.
pub struct RegisterSharedFileHandler;

impl RegisterSharedFileHandler {
    /// Offers the file at `path` under the next packet number and file id
    /// 0 (its name, or an empty one, and its size, or 0 when unreadable);
    /// a missing file is refused with `File does not exist: PATH`.
    pub fn handle(&self, engine: &mut NetworkEngine, path: &str, file: &LocalFile) -> (res: Result<
        u32,
        String,
    >)
        ensures
            final(engine).wf() == old(engine).wf(),
            final(engine).task_counter_view() == old(engine).task_counter_view(),
            file.exists ==> res == Ok::<u32, String>(old(engine).packet_counter_view())
                && final(engine).packet_counter_view() == vstd::wrapping::u32_specs::wrapping_add(
                old(engine).packet_counter_view(),
                1,
            ) && final(engine).files_view() == registered(
                old(engine).files_view(),
                old(engine).packet_counter_view(),
                0,
                SharedFileModel {
                    path: path@,
                    name: match file.name {
                        Some(n) => n@,
                        None => Seq::empty(),
                    },
                    size: match file.metadata {
                        Ok(m) => m.0,
                        Err(_) => 0,
                    },
                },
            ),
            !file.exists ==> (res matches Err(m) && m@ == "File does not exist: "@ + path@)
                && final(engine).files_view() == old(engine).files_view()
                && final(engine).packet_counter_view() == old(engine).packet_counter_view(),
    {
        if !file.exists {
            let mut m = String::new();
            push_str(&mut m, "File does not exist: ");
            push_str(&mut m, path);
            return Err(m);
        }
        let name = match &file.name {
            Some(n) => n.clone(),
            None => String::new(),
        };
        let size = match &file.metadata {
            Ok(m) => m.0,
            Err(_) => 0,
        };
        let packet_no = engine.next_packet_no();
        engine.register_shared_file(packet_no, 0, String::from_str(path), name, size);
        Ok(packet_no)
    }
}

/// The announcement of a shared file: its share line, a NUL, and its
/// attachment text.
pub open spec fn share_payload(name: Seq<char>, size: u64, mtime: u64) -> Seq<char> {
    share_line(name, size) + seq!['\0'] + attachment_text(
        AttachmentModel {
            id: 0,
            name,
            size,
            mtime,
            file_type: 1,
            progress: Progress { done: 0, of: 1 },
            status: TransferStatus::Pending,
        },
    )
}

/// What offering a file does: a missing file, a path without a name or
/// unreadable metadata is refused and nothing but the engine's validity is
/// kept; otherwise the file is registered under the next packet number and
/// file id 0, a sending task is recorded under the next task number at
/// `now_secs`, and a `SENDMSG` with the file-attachment option announces it
/// under the packet number after that.
pub open spec fn share_outcome(
    e0: NetworkEngine,
    e1: NetworkEngine,
    peer_ip: Seq<char>,
    path: Seq<char>,
    file: LocalFile,
    now_secs: i64,
    res: Result<SharePlan, String>,
) -> bool {
    &&& e1.wf() == e0.wf()
    &&& !file.exists ==> (res matches Err(m) && m@ == "Error: File path does not exist: "@ + path)
    &&& file.exists && file.name is None ==> (res matches Err(m) && m@ == "Error: Invalid file name"@)
    &&& file.exists && file.name is Some && file.metadata is Err ==> (res matches Err(m) && m@
        == "Error reading metadata: "@ + file.metadata->Err_0@)
    &&& res is Err ==> e1.files_view() == e0.files_view() && e1.packet_counter_view()
        == e0.packet_counter_view() && e1.task_counter_view() == e0.task_counter_view()
    &&& file.exists && file.name is Some && file.metadata is Ok ==> ({
        let name = file.name->Some_0@;
        let size = file.metadata->Ok_0.0;
        let mtime = file.metadata->Ok_0.1;
        let p0 = e0.packet_counter_view();
        let t0 = e0.task_counter_view();
        &&& res matches Ok(plan)
        &&& e1.files_view() == registered(e0.files_view(), p0, 0, SharedFileModel { path, name, size })
        &&& plan.task.id == Some(t0)
        &&& plan.task.file_name@ == name
        &&& plan.task.file_size == size as i64
        &&& plan.task.peer_ip@ == peer_ip
        &&& plan.task.is_sending
        &&& plan.task.status == TransferStatus::Pending
        &&& plan.task.progress == (Progress { done: 0, of: 1 })
        &&& plan.task.timestamp == now_secs
        &&& plan.outgoing.to_ip@ == peer_ip
        &&& plan.outgoing.port == port_for(e0.ports_view(), ip_number(peer_ip))
        &&& plan.outgoing.packet@ == engine_packet(
            e0,
            vstd::wrapping::u32_specs::wrapping_add(p0, 1),
            IPMSG_SENDMSG | IPMSG_FILEATTACHOPT,
            share_payload(name, size, mtime),
        )
        &&& e1.packet_counter_view() == packet_no_after(p0, 2)
        &&& e1.task_counter_view() == vstd::wrapping::i64_specs::wrapping_add(t0, 1)
    })
}

/// `CoreCommand::ShareFile`.
pub struct ShareFileHandler;

impl ShareFileHandler {
    /// Offers the file at `path` to `peer_ip`: it is registered under the
    /// next packet number and file id 0, a sending task is recorded under
    /// the next task number, and a `SENDMSG` with the file-attachment
    /// option announces it (under the packet number after that). A missing
    /// file, a path without a name or unreadable metadata is refused.
    pub fn handle(
        &self,
        engine: &mut NetworkEngine,
        peer_ip: &str,
        path: &str,
        file: &LocalFile,
        now_secs: i64,
    ) -> (res: Result<SharePlan, String>)
        ensures
            share_outcome(*old(engine), *final(engine), peer_ip@, path@, *file, now_secs, res),
    {
        if !file.exists {
            let mut m = String::new();
            push_str(&mut m, "Error: File path does not exist: ");
            push_str(&mut m, path);
            return Err(m);
        }
        let name = match &file.name {
            Some(n) => n.clone(),
            None => {
                return Err(String::from_str("Error: Invalid file name"));
            },
        };
        let (size, mtime) = match &file.metadata {
            Ok(m) => *m,
            Err(e) => {
                let mut m = String::new();
                push_str(&mut m, "Error reading metadata: ");
                push_str(&mut m, e.as_str());
                return Err(m);
            },
        };
        let ghost p0 = engine.packet_counter_view();
        let packet_no = engine.next_packet_no();
        engine.register_shared_file(packet_no, 0, String::from_str(path), name.clone(), size);
        let task_id = engine.next_transfer_task_id();
        let task = FileTaskRecord {
            id: Some(task_id),
            file_name: name.clone(),
            file_size: size as i64,
            peer_ip: String::from_str(peer_ip),
            is_sending: true,
            status: TransferStatus::Pending,
            progress: Progress { done: 0, of: 1 },
            timestamp: now_secs,
        };
        let att = FileAttachment {
            id: 0,
            name: name.clone(),
            size,
            mtime,
            file_type: 1,
            progress: Progress { done: 0, of: 1 },
            status: TransferStatus::Pending,
        };
        let meta = serialize_file_attachment(&att);
        let size_text = format_file_size(size);
        let mut payload = String::new();
        push_str(&mut payload, "Shared a file: ");
        push_str(&mut payload, name.as_str());
        push_str(&mut payload, " (");
        push_str(&mut payload, size_text.as_str());
        push_str(&mut payload, ")");
        push_char(&mut payload, '\0');
        push_str(&mut payload, meta.as_str());
        assert(payload@ =~= share_payload(name@, size, mtime));
        let port = engine.get_peer_port(peer_ip);
        let send_no = engine.next_packet_no();
        let packet = engine.outgoing_packet(send_no, IPMSG_SENDMSG | IPMSG_FILEATTACHOPT, payload.as_str());
        assert(engine.packet_counter_view() == packet_no_after(p0, 2));
        Ok(SharePlan { task, outgoing: Outgoing { to_ip: String::from_str(peer_ip), port, packet } })
    }
}


/// One more packet number is the next one after `k` of them.
pub proof fn lemma_packet_no_step(c: u32, k: nat)
    ensures
        vstd::wrapping::u32_specs::wrapping_add(packet_no_after(c, k), 1) == packet_no_after(c, k + 1),
        packet_no_after(c, 0) == c,
{
    let x = (c + k) % 0x1_0000_0000;
    vstd::arithmetic::div_mod::lemma_fundamental_div_mod((c + k) as int, 0x1_0000_0000);
    vstd::arithmetic::div_mod::lemma_fundamental_div_mod((c + k + 1) as int, 0x1_0000_0000);
    vstd::arithmetic::div_mod::lemma_mod_add_multiples_vanish((c + k) as int, 0x1_0000_0000);
    vstd::arithmetic::div_mod::lemma_add_mod_noop((c + k) as int, 1, 0x1_0000_0000);
    vstd::arithmetic::div_mod::lemma_small_mod(c as nat, 0x1_0000_0000);
    if x + 1 == 0x1_0000_0000 {
        vstd::arithmetic::div_mod::lemma_mod_self_0(0x1_0000_0000);
    } else {
        vstd::arithmetic::div_mod::lemma_small_mod((x + 1) as nat, 0x1_0000_0000);
    }
}

/// What starting a download does: a receiving task for `name` (`size`
/// bytes) from `peer_ip` is recorded under the next task number at
/// `now_secs`, the file is saved into the stored download directory
/// (`downloads` when none is stored), and the request carries that task
/// number.
pub open spec fn download_outcome(
    e0: NetworkEngine,
    e1: NetworkEngine,
    peer_ip: Seq<char>,
    packet_no: u32,
    file_id: u32,
    name: Seq<char>,
    size: u64,
    download_dir: Option<String>,
    now_secs: i64,
    res: DownloadPlan,
) -> bool {
    &&& res.download_dir@ == match download_dir {
        Some(d) => d@,
        None => "downloads"@,
    }
    &&& res.task.id == Some(e0.task_counter_view())
    &&& res.task.file_name@ == name
    &&& res.task.file_size == size as i64
    &&& res.task.peer_ip@ == peer_ip
    &&& !res.task.is_sending
    &&& res.task.status == TransferStatus::Pending
    &&& res.task.progress == (Progress { done: 0, of: 1 })
    &&& res.task.timestamp == now_secs
    &&& res.request@ == (crate::types::RequestModel {
        peer_ip,
        packet_no,
        file_id,
        save_path: name,
        file_size: size,
        is_directory: false,
        task_id: e0.task_counter_view(),
    })
    &&& e1.task_counter_view() == vstd::wrapping::i64_specs::wrapping_add(e0.task_counter_view(), 1)
    &&& e1.packet_counter_view() == e0.packet_counter_view()
    &&& e1.files_view() == e0.files_view()
    &&& e1.wf() == e0.wf()
}

/// `CoreCommand::DownloadFile`.
pub struct DownloadFileHandler;

impl DownloadFileHandler {
    /// Fetches file `file_id` offered by `peer_ip` in packet `packet_no`
    /// into the stored download directory (`downloads` when none is
    /// stored): a receiving task is recorded under the next task number.
    pub fn handle(
        &self,
        engine: &mut NetworkEngine,
        peer_ip: &str,
        packet_no: u32,
        file_id: u32,
        name: &str,
        size: u64,
        download_dir: Option<String>,
        now_secs: i64,
    ) -> (res: DownloadPlan)
        ensures
            download_outcome(
                *old(engine),
                *final(engine),
                peer_ip@,
                packet_no,
                file_id,
                name@,
                size,
                download_dir,
                now_secs,
                res,
            ),
    {
        let dir = match download_dir {
            Some(d) => d,
            None => String::from_str("downloads"),
        };
        let task_id = engine.next_transfer_task_id();
        DownloadPlan {
            task: FileTaskRecord {
                id: Some(task_id),
                file_name: String::from_str(name),
                file_size: size as i64,
                peer_ip: String::from_str(peer_ip),
                is_sending: false,
                status: TransferStatus::Pending,
                progress: Progress { done: 0, of: 1 },
                timestamp: now_secs,
            },
            download_dir: dir,
            request: FileDownloadRequest {
                peer_ip: String::from_str(peer_ip),
                packet_no,
                file_id,
                save_path: String::from_str(name),
                file_size: size,
                is_directory: false,
                task_id,
            },
        }
    }
}

/// Presence announcements to `targets`, one packet number each, in order.
fn announcements(engine: &mut NetworkEngine, targets: &Vec<(String, u16)>) -> (res: Vec<Outgoing>)
    ensures
        res@.len() == targets@.len(),
        forall|k: int|
            0 <= k < res@.len() ==> (#[trigger] res@[k]).to_ip@ == targets@[k].0@ && res@[k].port
                == targets@[k].1 && res@[k].packet@ == engine_packet(
                *old(engine),
                packet_no_after(old(engine).packet_counter_view(), k as nat),
                IPMSG_BR_ENTRY,
                old(engine).username_view(),
            ),
        final(engine).packet_counter_view() == packet_no_after(
            old(engine).packet_counter_view(),
            targets@.len(),
        ),
        final(engine).task_counter_view() == old(engine).task_counter_view(),
        final(engine).files_view() == old(engine).files_view(),
        final(engine).ports_view() == old(engine).ports_view(),
        final(engine).username_view() == old(engine).username_view(),
        final(engine).hostname_view() == old(engine).hostname_view(),
        final(engine).wf() == old(engine).wf(),
{
    let ghost e0 = *engine;
    let ghost c0 = engine.packet_counter_view();
    let username = engine.get_username();
    let mut res: Vec<Outgoing> = Vec::new();
    let mut k: usize = 0;
    proof {
        lemma_packet_no_step(c0, 0);
    }
    while k < targets.len()
        invariant
            k <= targets@.len(),
            res@.len() == k,
            username@ == e0.username_view(),
            engine.packet_counter_view() == packet_no_after(c0, k as nat),
            engine.task_counter_view() == e0.task_counter_view(),
            engine.files_view() == e0.files_view(),
            engine.ports_view() == e0.ports_view(),
            engine.username_view() == e0.username_view(),
            engine.hostname_view() == e0.hostname_view(),
            engine.wf() == e0.wf(),
            forall|j: int|
                0 <= j < k ==> (#[trigger] res@[j]).to_ip@ == targets@[j].0@ && res@[j].port
                    == targets@[j].1 && res@[j].packet@ == engine_packet(
                    e0,
                    packet_no_after(c0, j as nat),
                    IPMSG_BR_ENTRY,
                    e0.username_view(),
                ),
        decreases targets@.len() - k,
    {
        proof {
            lemma_packet_no_step(c0, k as nat);
        }
        let packet_no = engine.next_packet_no();
        let packet = engine.outgoing_packet(packet_no, IPMSG_BR_ENTRY, username.as_str());
        res.push(Outgoing { to_ip: targets[k].0.clone(), port: targets[k].1, packet });
        k = k + 1;
    }
    res
}

/// `CoreCommand::BroadcastPresence`.
pub struct BroadcastPresenceHandler;

impl BroadcastPresenceHandler {
    /// Announces the node: a `BR_ENTRY` with the user name to every port
    /// from 2425 to 2430 at each broadcast address of the local address
    /// (just the limited broadcast address when it is unknown).
    pub fn handle(&self, engine: &mut NetworkEngine, local_ip: Option<&str>) -> (res: Vec<Outgoing>)
        ensures
            ({
                let addrs = match local_ip {
                    Some(ip) => crate::network::discovery::broadcast_addrs(ip@),
                    None => seq!["255.255.255.255"@],
                };
                &&& res@.len() == 6 * addrs.len()
                &&& forall|k: int|
                    0 <= k < res@.len() ==> (#[trigger] res@[k]).to_ip@ == addrs[k % (
                    addrs.len() as int)] && res@[k].port == 2425 + k / (addrs.len() as int)
                        && res@[k].packet@ == engine_packet(
                        *old(engine),
                        packet_no_after(old(engine).packet_counter_view(), k as nat),
                        IPMSG_BR_ENTRY,
                        old(engine).username_view(),
                    )
            }),
            final(engine).task_counter_view() == old(engine).task_counter_view(),
            final(engine).files_view() == old(engine).files_view(),
            final(engine).wf() == old(engine).wf(),
    {
        let addrs = match local_ip {
            Some(ip) => subnet_broadcast_addrs(ip),
            None => {
                let mut v: Vec<String> = Vec::new();
                v.push(String::from_str("255.255.255.255"));
                v
            },
        };
        let ghost av = addrs@.map_values(|a: String| a@);
        assert(av =~= match local_ip {
            Some(ip) => crate::network::discovery::broadcast_addrs(ip@),
            None => seq!["255.255.255.255"@],
        });
        let targets = announce_plan(&addrs);
        announcements(engine, &targets)
    }
}

/// `CoreCommand::ScanSubnet`.
pub struct ScanSubnetHandler;

impl ScanSubnetHandler {
    /// Probes every host of the subnet `subnet` (`.1` to `.254`) with a
    /// `BR_ENTRY` carrying the user name, each at its known port.
    pub fn handle(&self, engine: &mut NetworkEngine, subnet: &str) -> (res: Vec<Outgoing>)
        ensures
            res@.len() == 254,
            forall|k: int|
                0 <= k < 254 ==> (#[trigger] res@[k]).to_ip@ == subnet_host(subnet@, (k + 1) as nat)
                    && res@[k].port == port_for(
                    old(engine).ports_view(),
                    ip_number(subnet_host(subnet@, (k + 1) as nat)),
                ) && res@[k].packet@ == engine_packet(
                    *old(engine),
                    packet_no_after(old(engine).packet_counter_view(), k as nat),
                    IPMSG_BR_ENTRY,
                    old(engine).username_view(),
                ),
            final(engine).task_counter_view() == old(engine).task_counter_view(),
            final(engine).files_view() == old(engine).files_view(),
            final(engine).wf() == old(engine).wf(),
    {
        let ips = subnet_ips(subnet);
        let mut targets: Vec<(String, u16)> = Vec::new();
        let mut k: usize = 0;
        while k < ips.len()
            invariant
                k <= ips@.len(),
                ips@.len() == 254,
                targets@.len() == k,
                forall|j: int| 0 <= j < 254 ==> #[trigger] ips@[j]@ == subnet_host(subnet@, (j + 1) as nat),
                forall|j: int|
                    0 <= j < k ==> (#[trigger] targets@[j]).0@ == ips@[j]@ && targets@[j].1
                        == port_for(engine.ports_view(), ip_number(ips@[j]@)),
            decreases ips@.len() - k,
        {
            let port = engine.get_peer_port(ips[k].as_str());
            targets.push((ips[k].clone(), port));
            k = k + 1;
        }
        announcements(engine, &targets)
    }
}


/// A download goes into the directory the user stored, exactly; only when
/// none is stored does it go into `downloads`. The file keeps its offered
/// name within that directory.
pub proof fn lemma_download_directory(
    e0: NetworkEngine,
    e1: NetworkEngine,
    peer_ip: Seq<char>,
    packet_no: u32,
    file_id: u32,
    name: Seq<char>,
    size: u64,
    download_dir: Option<String>,
    now_secs: i64,
    res: DownloadPlan,
)
    requires
        download_outcome(e0, e1, peer_ip, packet_no, file_id, name, size, download_dir, now_secs, res),
    ensures
        download_dir matches Some(d) ==> res.download_dir@ == d@,
        download_dir is None ==> res.download_dir@ == "downloads"@,
        res.request.save_path@ == name,
{
}

} // verus!
