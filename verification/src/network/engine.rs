//! The state of the network engine and the decisions it takes: packet and
//! task numbering, the identity it announces, traffic counters, and the
//! handling of received datagrams and file requests. Sockets are driven
//! by the caller, which performs the actions that these functions return.
use vstd::prelude::*;
use crate::error::AppError;
use crate::numfmt::{dec_repr, push_dec};
use crate::protocol::codec::{hex_field, hex_or_zero, parse_packet_text, IPMsgPacket, PacketModel};
use crate::protocol::message::{getfiledata_extra, getfiledata_text};
use crate::protocol::transcoder::{fits_decode_buffer, gbk_decode};
use crate::protocol::{IPMSG_GETFILEDATA, IPMSG_SENDCHECKOPT, IPMSG_VERSION};
use crate::text::{chars_of, push_str, split_all, split_all_exec, views};
use crate::types::{CoreEvent, EventModel, FileDownloadRequest};
use super::file_registry::{lookup_in, FileRegistry, SharedFile, SharedFileModel};
use super::packet_dispatcher::{
    action_views, dispatch_actions, duplicate_actions, handler_tasks, lemma_redelivery_is_duplicate, packet_key, remembered, sanitized_packet, task_after,
    ActionModel, NetAction, PacketContext, PacketDispatcher,
};
use super::peer_directory::{ip_number, port_for, PeerDirectory};

verus! {

/// Traffic counters. Each wraps around at `u64::MAX`.
#[derive(Debug, Clone, Copy)]
pub struct EngineStats {
    pub packets_sent: u64,
    pub packets_received: u64,
    pub bytes_sent: u64,
    pub bytes_received: u64,
    pub errors: u64,
}

impl Default for EngineStats {
    fn default() -> (res: EngineStats)
        ensures
            res.packets_sent == 0 && res.packets_received == 0 && res.bytes_sent == 0
                && res.bytes_received == 0 && res.errors == 0,
    {
        EngineStats { packets_sent: 0, packets_received: 0, bytes_sent: 0, bytes_received: 0, errors: 0 }
    }
}

/// What the uploader needs to serve a file request.
#[derive(Debug, Clone)]
pub struct UploadRequestDetails {
    pub file_path: String,
    pub file_size: u64,
    pub offset: u64,
    pub task_id: i64,
}

pub open spec fn add_u64(x: u64, y: u64) -> u64 {
    vstd::wrapping::u64_specs::wrapping_add(x, y)
}

/// The first packet number of an engine bound to `port` at time `now_secs`:
/// the time (cut to 32 bits) plus 100000 times the port, wrapping around,
/// so that instances on one machine number their packets apart.
pub open spec fn initial_packet_no(now_secs: i64, port: u16) -> u32 {
    vstd::wrapping::u32_specs::wrapping_add(
        now_secs as u32,
        vstd::wrapping::u32_specs::wrapping_mul(port as u32, 100_000),
    )
}

/// The first packet number of an engine bound to `port` at time `now_secs`.
pub fn start_packet_no(now_secs: i64, port: u16) -> (res: u32)
    ensures
        res == initial_packet_no(now_secs, port),
{
    (now_secs as u32).wrapping_add((port as u32).wrapping_mul(100_000))
}

/// The packet that the text in `bytes` holds, when it holds one.
pub open spec fn received_packet(bytes: Seq<u8>) -> Option<PacketModel> {
    match parse_packet_text(gbk_decode(bytes)) {
        Ok(p) => Some(p),
        Err(_) => None,
    }
}

/// The answer to a request for a file's data: the registered file and the
/// offset to start at, or the text of the error.
pub open spec fn upload_outcome(
    files: Map<Seq<char>, SharedFileModel>,
    request: Option<PacketModel>,
) -> Result<(SharedFileModel, u64), Seq<char>> {
    match request {
        None => Err("Failed to parse IPMsg TCP packet"@),
        Some(p) => {
            let b = p.cmd & 0xFF;
            if b != IPMSG_GETFILEDATA {
                Err("Unsupported TCP command: "@ + dec_repr(b as nat))
            } else {
                let parts = split_all(p.extra, ':');
                if parts.len() < 3 {
                    Err("Malformed IPMSG_GETFILEDATA extra part: "@ + p.extra)
                } else {
                    let packet_id = hex_or_zero(parts[0], u32::MAX as nat) as u32;
                    let file_id = hex_or_zero(parts[1], u32::MAX as nat) as u32;
                    let offset = hex_or_zero(parts[2], u64::MAX as nat) as u64;
                    match lookup_in(files, packet_id, file_id) {
                        None => Err(
                            "Requested file not found in registry. packet_id: "@ + dec_repr(
                                packet_id as nat,
                            ) + ", file_id: "@ + dec_repr(file_id as nat),
                        ),
                        Some(f) => Ok((f, offset)),
                    }
                }
            }
        },
    }
}

/// The state of a network engine.
pub struct NetworkEngine {
    username: String,
    hostname: String,
    packet_counter: u32,
    next_task_id: i64,
    stats: EngineStats,
    peer_directory: PeerDirectory,
    file_registry: FileRegistry,
    dispatcher: PacketDispatcher,
}

impl NetworkEngine {
    pub closed spec fn wf(&self) -> bool {
        self.dispatcher.wf()
    }

    pub closed spec fn username_view(&self) -> Seq<char> {
        self.username@
    }

    pub closed spec fn hostname_view(&self) -> Seq<char> {
        self.hostname@
    }

    /// The next packet number to be handed out.
    pub closed spec fn packet_counter_view(&self) -> u32 {
        self.packet_counter
    }

    /// The next transfer task number to be handed out.
    pub closed spec fn task_counter_view(&self) -> i64 {
        self.next_task_id
    }

    pub closed spec fn stats_view(&self) -> EngineStats {
        self.stats
    }

    pub closed spec fn ports_view(&self) -> Map<u32, u16> {
        self.peer_directory@
    }

    pub closed spec fn files_view(&self) -> Map<Seq<char>, SharedFileModel> {
        self.file_registry@
    }

    pub closed spec fn recent_view(&self) -> Seq<(u32, u32)> {
        self.dispatcher@
    }

    /// An engine announcing `username@hostname`, numbering packets from
    /// `start_packet_no` and transfer tasks from `max_task_id + 1`.
    pub fn new(username: String, hostname: String, start_packet_no: u32, max_task_id: i64) -> (res:
        NetworkEngine)
        requires
            max_task_id < i64::MAX,
        ensures
            res.wf(),
            res.username_view() == username@,
            res.hostname_view() == hostname@,
            res.packet_counter_view() == start_packet_no,
            res.task_counter_view() == max_task_id + 1,
            res.stats_view() == (EngineStats {
                packets_sent: 0,
                packets_received: 0,
                bytes_sent: 0,
                bytes_received: 0,
                errors: 0,
            }),
            res.ports_view() == Map::<u32, u16>::empty(),
            res.files_view() == Map::<Seq<char>, SharedFileModel>::empty(),
            res.recent_view() == Seq::<(u32, u32)>::empty(),
    {
        NetworkEngine {
            username,
            hostname,
            packet_counter: start_packet_no,
            next_task_id: max_task_id + 1,
            stats: EngineStats::default(),
            peer_directory: PeerDirectory::new(),
            file_registry: FileRegistry::new(),
            dispatcher: PacketDispatcher::new(),
        }
    }

    /// An engine started at `now_secs` (seconds since the epoch) on
    /// `port`: its packet numbers start from that time and the port.
    pub fn start(username: String, hostname: String, port: u16, max_task_id: i64, now_secs: i64) -> (res:
        NetworkEngine)
        requires
            max_task_id < i64::MAX,
        ensures
            res.wf(),
            res.username_view() == username@,
            res.hostname_view() == hostname@,
            res.packet_counter_view() == initial_packet_no(now_secs, port),
            res.task_counter_view() == max_task_id + 1,
    {
        NetworkEngine::new(username, hostname, start_packet_no(now_secs, port), max_task_id)
    }

    /// Hands out a packet number (they wrap around).
    pub fn next_packet_no(&mut self) -> (res: u32)
        ensures
            res == old(self).packet_counter_view(),
            final(self).packet_counter_view() == vstd::wrapping::u32_specs::wrapping_add(res, 1),
            final(self).task_counter_view() == old(self).task_counter_view(),
            final(self).username_view() == old(self).username_view(),
            final(self).hostname_view() == old(self).hostname_view(),
            final(self).stats_view() == old(self).stats_view(),
            final(self).ports_view() == old(self).ports_view(),
            final(self).files_view() == old(self).files_view(),
            final(self).recent_view() == old(self).recent_view(),
            final(self).wf() == old(self).wf(),
    {
        let n = self.packet_counter;
        self.packet_counter = n.wrapping_add(1);
        n
    }

    /// Hands out a transfer task number (they wrap around).
    pub fn next_transfer_task_id(&mut self) -> (res: i64)
        ensures
            res == old(self).task_counter_view(),
            final(self).task_counter_view() == vstd::wrapping::i64_specs::wrapping_add(res, 1),
            final(self).packet_counter_view() == old(self).packet_counter_view(),
            final(self).username_view() == old(self).username_view(),
            final(self).hostname_view() == old(self).hostname_view(),
            final(self).stats_view() == old(self).stats_view(),
            final(self).ports_view() == old(self).ports_view(),
            final(self).files_view() == old(self).files_view(),
            final(self).recent_view() == old(self).recent_view(),
            final(self).wf() == old(self).wf(),
    {
        let t = self.next_task_id;
        self.next_task_id = t.wrapping_add(1);
        t
    }

    /// The user name that the engine announces.
    pub fn get_username(&self) -> (res: String)
        ensures
            res@ == self.username_view(),
    {
        self.username.clone()
    }

    /// The host name that the engine announces.
    pub fn get_hostname(&self) -> (res: String)
        ensures
            res@ == self.hostname_view(),
    {
        self.hostname.clone()
    }

    /// Changes the identity that the engine announces.
    pub fn update_identity(&mut self, username: String, hostname: String)
        ensures
            final(self).username_view() == username@,
            final(self).hostname_view() == hostname@,
            final(self).packet_counter_view() == old(self).packet_counter_view(),
            final(self).task_counter_view() == old(self).task_counter_view(),
            final(self).stats_view() == old(self).stats_view(),
            final(self).ports_view() == old(self).ports_view(),
            final(self).files_view() == old(self).files_view(),
            final(self).recent_view() == old(self).recent_view(),
            final(self).wf() == old(self).wf(),
    {
        self.username = username;
        self.hostname = hostname;
    }

    /// A snapshot of the traffic counters.
    pub fn stats(&self) -> (res: EngineStats)
        ensures
            res == self.stats_view(),
    {
        self.stats
    }

    /// Records the port of the peer at the address text `ip_str`.
    pub fn register_peer_port(&mut self, ip_str: &str, port: u16)
        ensures
            final(self).ports_view() == old(self).ports_view().insert(ip_number(ip_str@), port),
            final(self).files_view() == old(self).files_view(),
            final(self).wf() == old(self).wf(),
    {
        self.peer_directory.upsert_str(ip_str, port);
    }

    /// The port of the peer at the address text `ip`, or 2425 when unknown.
    pub fn get_peer_port(&self, ip: &str) -> (res: u16)
        ensures
            res == port_for(self.ports_view(), ip_number(ip@)),
    {
        self.peer_directory.get_port_str(ip)
    }

    /// Offers a file to peers under `packet_no` and `file_id`.
    pub fn register_shared_file(
        &mut self,
        packet_no: u32,
        file_id: u32,
        path: String,
        name: String,
        size: u64,
    )
        ensures
            final(self).files_view() == super::file_registry::registered(
                old(self).files_view(),
                packet_no,
                file_id,
                SharedFileModel { path: path@, name: name@, size },
            ),
            final(self).ports_view() == old(self).ports_view(),
            final(self).task_counter_view() == old(self).task_counter_view(),
            final(self).packet_counter_view() == old(self).packet_counter_view(),
            final(self).username_view() == old(self).username_view(),
            final(self).hostname_view() == old(self).hostname_view(),
            final(self).stats_view() == old(self).stats_view(),
            final(self).recent_view() == old(self).recent_view(),
            final(self).wf() == old(self).wf(),
    {
        self.file_registry.register(packet_no, file_id, SharedFile { path, name, size });
    }

    /// The packet that the engine sends with this number, command and extra
    /// field: protocol version 1 and the engine's identity.
    pub fn outgoing_packet(&self, packet_no: u32, cmd: u32, extra: &str) -> (res: IPMsgPacket)
        ensures
            res@ == (PacketModel {
                version: IPMSG_VERSION@,
                packet_no,
                username: self.username_view(),
                hostname: self.hostname_view(),
                cmd,
                extra: extra@,
            }),
    {
        IPMsgPacket {
            version: String::from_str(IPMSG_VERSION),
            packet_no,
            username: self.username.clone(),
            hostname: self.hostname.clone(),
            cmd,
            extra: String::from_str(extra),
        }
    }

    /// The command of a packet that asks for an acknowledgement.
    pub fn with_send_check(cmd: u32) -> (res: u32)
        ensures
            res == cmd | IPMSG_SENDCHECKOPT,
    {
        cmd | IPMSG_SENDCHECKOPT
    }

    /// Counts the outcome of sending `bytes` bytes: a packet and its bytes
    /// when it went out, an error when it did not.
    pub fn record_send(&mut self, sent: bool, bytes: u64)
        ensures
            sent ==> final(self).stats_view() == (EngineStats {
                packets_sent: add_u64(old(self).stats_view().packets_sent, 1),
                bytes_sent: add_u64(old(self).stats_view().bytes_sent, bytes),
                ..old(self).stats_view()
            }),
            !sent ==> final(self).stats_view() == (EngineStats {
                errors: add_u64(old(self).stats_view().errors, 1),
                ..old(self).stats_view()
            }),
            final(self).packet_counter_view() == old(self).packet_counter_view(),
            final(self).task_counter_view() == old(self).task_counter_view(),
            final(self).ports_view() == old(self).ports_view(),
            final(self).files_view() == old(self).files_view(),
            final(self).recent_view() == old(self).recent_view(),
            final(self).wf() == old(self).wf(),
    {
        if sent {
            self.stats.packets_sent = self.stats.packets_sent.wrapping_add(1);
            self.stats.bytes_sent = self.stats.bytes_sent.wrapping_add(bytes);
        } else {
            self.stats.errors = self.stats.errors.wrapping_add(1);
        }
    }

    /// Counts a failed receive or transfer.
    pub fn record_error(&mut self)
        ensures
            final(self).stats_view() == (EngineStats {
                errors: add_u64(old(self).stats_view().errors, 1),
                ..old(self).stats_view()
            }),
            final(self).packet_counter_view() == old(self).packet_counter_view(),
            final(self).task_counter_view() == old(self).task_counter_view(),
            final(self).ports_view() == old(self).ports_view(),
            final(self).files_view() == old(self).files_view(),
            final(self).recent_view() == old(self).recent_view(),
            final(self).wf() == old(self).wf(),
    {
        self.stats.errors = self.stats.errors.wrapping_add(1);
    }

    /// Counts the bytes of a completed download.
    pub fn record_download(&mut self, bytes: u64)
        ensures
            final(self).stats_view() == (EngineStats {
                bytes_received: add_u64(old(self).stats_view().bytes_received, bytes),
                ..old(self).stats_view()
            }),
            final(self).packet_counter_view() == old(self).packet_counter_view(),
            final(self).task_counter_view() == old(self).task_counter_view(),
            final(self).ports_view() == old(self).ports_view(),
            final(self).files_view() == old(self).files_view(),
            final(self).recent_view() == old(self).recent_view(),
            final(self).wf() == old(self).wf(),
    {
        self.stats.bytes_received = self.stats.bytes_received.wrapping_add(bytes);
    }
}


/// The packets the engine remembers after `p` from `ip_u32` came in: a
/// packet seen before changes nothing, a new one is remembered.
pub open spec fn recent_after(cache: Seq<(u32, u32)>, ip_u32: u32, p: PacketModel) -> Seq<(u32, u32)> {
    if cache.contains(packet_key(ip_u32, p)) {
        cache
    } else {
        remembered(cache, packet_key(ip_u32, p))
    }
}

/// The next task number after `p` from `ip_u32` came in: a packet seen
/// before takes none, a new one as many as its handler hands out.
pub open spec fn tasks_after(cache: Seq<(u32, u32)>, ip_u32: u32, p: PacketModel, t: i64) -> i64 {
    if cache.contains(packet_key(ip_u32, p)) {
        t
    } else {
        task_after(t, handler_tasks(sanitized_packet(p)))
    }
}

impl NetworkEngine {
    /// Answers a request for a file's data that has been read as a packet
    /// (or could not be): the registered file and offset, with a new task
    /// number and the event that announces the upload; or the error.
    pub fn upload_request_for(&mut self, peer_ip: &str, request: Option<IPMsgPacket>) -> (res:
        Result<(UploadRequestDetails, CoreEvent), AppError>)
        ensures
            final(self).wf() == old(self).wf(),
            final(self).files_view() == old(self).files_view(),
            final(self).ports_view() == old(self).ports_view(),
            final(self).packet_counter_view() == old(self).packet_counter_view(),
            match upload_outcome(
                old(self).files_view(),
                match request {
                    Some(p) => Some(p@),
                    None => None,
                },
            ) {
                Ok((f, offset)) => res matches Ok((d, e)) && d.file_path@ == f.path && d.file_size
                    == f.size && d.offset == offset && d.task_id == old(self).task_counter_view()
                    && e@ == (EventModel::TransferStarted {
                    task_id: d.task_id,
                    peer_ip: peer_ip@,
                    file_name: f.name,
                    file_size: f.size as i64,
                    is_sending: true,
                }) && final(self).task_counter_view() == vstd::wrapping::i64_specs::wrapping_add(
                    d.task_id,
                    1,
                ),
                Err(msg) => res matches Err(AppError::Other(m)) && m@ == msg
                    && final(self).task_counter_view() == old(self).task_counter_view(),
            },
    {
        let packet = match request {
            Some(p) => p,
            None => {
                return Err(AppError::Other(String::from_str("Failed to parse IPMsg TCP packet")));
            },
        };
        let cmd_base = packet.cmd & 0xFF;
        if cmd_base != IPMSG_GETFILEDATA {
            let mut m = String::new();
            push_str(&mut m, "Unsupported TCP command: ");
            push_dec(&mut m, cmd_base as u64);
            return Err(AppError::Other(m));
        }
        let cs = chars_of(packet.extra.as_str());
        let parts = split_all_exec(cs.as_slice(), ':');
        assert(views(parts@) == split_all(packet.extra@, ':'));
        if parts.len() < 3 {
            let mut m = String::new();
            push_str(&mut m, "Malformed IPMSG_GETFILEDATA extra part: ");
            push_str(&mut m, packet.extra.as_str());
            return Err(AppError::Other(m));
        }
        assert(views(parts@)[0] == parts@[0]@);
        assert(views(parts@)[1] == parts@[1]@);
        assert(views(parts@)[2] == parts@[2]@);
        let packet_id = hex_field(parts[0].as_slice(), 0xFFFF_FFFF) as u32;
        let file_id = hex_field(parts[1].as_slice(), 0xFFFF_FFFF) as u32;
        let offset = hex_field(parts[2].as_slice(), 0xFFFF_FFFF_FFFF_FFFF);
        let file_info = match self.file_registry.lookup(packet_id, file_id) {
            Some(f) => f,
            None => {
                let mut m = String::new();
                push_str(&mut m, "Requested file not found in registry. packet_id: ");
                push_dec(&mut m, packet_id as u64);
                push_str(&mut m, ", file_id: ");
                push_dec(&mut m, file_id as u64);
                return Err(AppError::Other(m));
            },
        };
        let task_id = self.next_transfer_task_id();
        let event = CoreEvent::TransferStarted {
            task_id,
            peer_ip: String::from_str(peer_ip),
            file_name: file_info.name.clone(),
            file_size: file_info.size as i64,
            is_sending: true,
        };
        Ok(
            (
                UploadRequestDetails {
                    file_path: file_info.path,
                    file_size: file_info.size,
                    offset,
                    task_id,
                },
                event,
            ),
        )
    }

    /// Answers a request for a file's data received over TCP as wire bytes
    /// (`handle_tcp_upload_request`).
    pub fn handle_tcp_upload_request(&mut self, peer_ip: &str, request_payload: &[u8]) -> (res:
        Result<(UploadRequestDetails, CoreEvent), AppError>)
        requires
            fits_decode_buffer(request_payload@.len()),
        ensures
            final(self).wf() == old(self).wf(),
            final(self).files_view() == old(self).files_view(),
            match upload_outcome(old(self).files_view(), received_packet(request_payload@)) {
                Ok((f, offset)) => res matches Ok((d, e)) && d.file_path@ == f.path && d.file_size
                    == f.size && d.offset == offset && d.task_id == old(self).task_counter_view()
                    && e@ == (EventModel::TransferStarted {
                    task_id: d.task_id,
                    peer_ip: peer_ip@,
                    file_name: f.name,
                    file_size: f.size as i64,
                    is_sending: true,
                }) && final(self).task_counter_view() == vstd::wrapping::i64_specs::wrapping_add(
                    old(self).task_counter_view(),
                    1,
                ),
                Err(msg) => res matches Err(AppError::Other(m)) && m@ == msg
                    && final(self).task_counter_view() == old(self).task_counter_view(),
            },
            final(self).ports_view() == old(self).ports_view(),
            final(self).packet_counter_view() == old(self).packet_counter_view(),
    {
        let parsed = IPMsgPacket::parse(request_payload);
        self.upload_request_for(peer_ip, parsed)
    }

    /// Handles a packet received from `peer_ip` at `now_millis`: see
    /// `PacketDispatcher::dispatch`.
    pub fn handle_incoming_packet(
        &mut self,
        peer_ip: &str,
        ip_u32: u32,
        packet: IPMsgPacket,
        now_millis: i64,
    ) -> (res: Vec<NetAction>)
        requires
            old(self).wf(),
        ensures
            final(self).wf(),
            action_views(res@) == dispatch_actions(
                old(self).recent_view(),
                peer_ip@,
                ip_u32,
                old(self).username_view(),
                now_millis,
                packet@,
                old(self).task_counter_view(),
            ),
            final(self).recent_view() == recent_after(old(self).recent_view(), ip_u32, packet@),
            final(self).task_counter_view() == tasks_after(
                old(self).recent_view(),
                ip_u32,
                packet@,
                old(self).task_counter_view(),
            ),
            final(self).files_view() == old(self).files_view(),
            final(self).ports_view() == old(self).ports_view(),
            final(self).stats_view() == old(self).stats_view(),
            final(self).packet_counter_view() == old(self).packet_counter_view(),
            final(self).username_view() == old(self).username_view(),
            final(self).hostname_view() == old(self).hostname_view(),
    {
        let ctx = PacketContext {
            peer_ip: String::from_str(peer_ip),
            ip_u32,
            my_username: self.username.clone(),
            now_millis,
        };
        self.dispatcher.dispatch(&ctx, packet, &mut self.next_task_id)
    }

    /// Handles a datagram of `data` from `src_ip:src_port` (`ip_u32` is the
    /// address as a number, 0 when not IPv4; `is_self` when it came from
    /// the engine's own socket): counts it, notes the sender's port, and
    /// dispatches the packet it holds, or counts an error when it holds
    /// none.
    pub fn receive_datagram(
        &mut self,
        src_ip: &str,
        src_port: u16,
        ip_u32: u32,
        is_self: bool,
        data: &[u8],
        now_millis: i64,
    ) -> (res: Vec<NetAction>)
        requires
            old(self).wf(),
            fits_decode_buffer(data@.len()),
        ensures
            final(self).wf(),
            final(self).stats_view().packets_received == add_u64(
                old(self).stats_view().packets_received,
                1,
            ),
            final(self).stats_view().bytes_received == add_u64(
                old(self).stats_view().bytes_received,
                data@.len() as u64,
            ),
            final(self).ports_view() == if !is_self && ip_u32 != 0 {
                old(self).ports_view().insert(ip_u32, src_port)
            } else {
                old(self).ports_view()
            },
            final(self).files_view() == old(self).files_view(),
            match received_packet(data@) {
                Some(p) => action_views(res@) == dispatch_actions(
                    old(self).recent_view(),
                    src_ip@,
                    ip_u32,
                    old(self).username_view(),
                    now_millis,
                    p,
                    old(self).task_counter_view(),
                ) && final(self).stats_view().errors == old(self).stats_view().errors
                    && final(self).recent_view() == recent_after(old(self).recent_view(), ip_u32, p)
                    && final(self).task_counter_view() == tasks_after(
                    old(self).recent_view(),
                    ip_u32,
                    p,
                    old(self).task_counter_view(),
                ),
                None => res@.len() == 0 && final(self).stats_view().errors == add_u64(
                    old(self).stats_view().errors,
                    1,
                ) && final(self).recent_view() == old(self).recent_view()
                    && final(self).task_counter_view() == old(self).task_counter_view(),
            },
            final(self).packet_counter_view() == old(self).packet_counter_view(),
            final(self).username_view() == old(self).username_view(),
            final(self).hostname_view() == old(self).hostname_view(),
    {
        self.stats.packets_received = self.stats.packets_received.wrapping_add(1);
        self.stats.bytes_received = self.stats.bytes_received.wrapping_add(data.len() as u64);
        if !is_self && ip_u32 != 0 {
            self.peer_directory.upsert(ip_u32, src_port);
        }
        match IPMsgPacket::parse(data) {
            Some(packet) => self.handle_incoming_packet(src_ip, ip_u32, packet, now_millis),
            None => {
                self.stats.errors = self.stats.errors.wrapping_add(1);
                Vec::new()
            },
        }
    }

    /// The request packet for downloading a whole offered file, and the
    /// port of the peer that offers it; the packet takes the next packet
    /// number.
    pub fn download_request(&mut self, req: &FileDownloadRequest) -> (res: (IPMsgPacket, u16))
        ensures
            res.0@ == (PacketModel {
                version: IPMSG_VERSION@,
                packet_no: old(self).packet_counter_view(),
                username: old(self).username_view(),
                hostname: old(self).hostname_view(),
                cmd: IPMSG_GETFILEDATA,
                extra: getfiledata_text(req.packet_no, req.file_id),
            }),
            res.1 == port_for(old(self).ports_view(), ip_number(req.peer_ip@)),
            final(self).packet_counter_view() == vstd::wrapping::u32_specs::wrapping_add(
                old(self).packet_counter_view(),
                1,
            ),
            final(self).task_counter_view() == old(self).task_counter_view(),
            final(self).ports_view() == old(self).ports_view(),
            final(self).files_view() == old(self).files_view(),
            final(self).stats_view() == old(self).stats_view(),
            final(self).recent_view() == old(self).recent_view(),
            final(self).username_view() == old(self).username_view(),
            final(self).hostname_view() == old(self).hostname_view(),
            final(self).wf() == old(self).wf(),
    {
        let port = self.get_peer_port(req.peer_ip.as_str());
        let extra = getfiledata_extra(req.packet_no, req.file_id);
        let packet_no = self.next_packet_no();
        let packet = self.outgoing_packet(packet_no, IPMSG_GETFILEDATA, extra.as_str());
        (packet, port)
    }
}


/// The engine handles a datagram once: when the same packet comes in again
/// from the same sender, it yields only what a duplicate yields, takes no
/// task number, and the remembered packets stay as they are.
pub proof fn lemma_engine_redelivery(cache: Seq<(u32, u32)>, ip_u32: u32, p: PacketModel, t: i64)
    ensures
        recent_after(recent_after(cache, ip_u32, p), ip_u32, p) == recent_after(cache, ip_u32, p),
        tasks_after(recent_after(cache, ip_u32, p), ip_u32, p, t) == t,
        forall|ctx_ip: Seq<char>, my_username: Seq<char>, now: i64|
            #[trigger] dispatch_actions(recent_after(cache, ip_u32, p), ctx_ip, ip_u32, my_username, now, p, t)
                == duplicate_actions(ctx_ip, sanitized_packet(p)),
{
    let key = packet_key(ip_u32, p);
    assert(packet_key(ip_u32, sanitized_packet(p)) == key);
    if !cache.contains(key) {
        lemma_redelivery_is_duplicate(cache, ip_u32, p);
    }
}

} // verus!
