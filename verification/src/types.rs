//! Values shared by the engine, the protocol and the front ends.
use vstd::prelude::*;
use vstd::arithmetic::div_mod::{lemma_div_denominator, lemma_fundamental_div_mod};
use crate::numfmt::{dec_repr, digit_char, digit_to_char, push_dec};
use crate::text::{push_char, push_str};

verus! {

/// The identifier under which the local user's own messages are stored.
pub const LOCAL_USER_IDENTIFIER: &'static str = "me";

/// The chat line recorded when the local user sends a window nudge.
pub const NUDGE_MESSAGE_CONTENT: &'static str = "* sent a window nudge *";

/// The state of a file transfer.
#[derive(Debug, Clone, Copy, PartialEq, Eq, Structural)]
pub enum TransferStatus {
    Pending,
    Transferring,
    Completed,
    Failed,
}

/// The name under which a status is printed and stored.
pub open spec fn status_name(s: TransferStatus) -> Seq<char> {
    match s {
        TransferStatus::Pending => "pending"@,
        TransferStatus::Transferring => "transferring"@,
        TransferStatus::Completed => "completed"@,
        TransferStatus::Failed => "failed"@,
    }
}

/// The status that a stored name stands for.
pub open spec fn status_from_name(s: Seq<char>) -> Option<TransferStatus> {
    if s == "pending"@ {
        Some(TransferStatus::Pending)
    } else if s == "transferring"@ {
        Some(TransferStatus::Transferring)
    } else if s == "completed"@ {
        Some(TransferStatus::Completed)
    } else if s == "failed"@ {
        Some(TransferStatus::Failed)
    } else {
        None
    }
}

/// Every status is read back from its name.
pub proof fn lemma_status_name_roundtrip(s: TransferStatus)
    ensures
        status_from_name(status_name(s)) == Some(s),
{
    reveal_strlit("pending");
    reveal_strlit("transferring");
    reveal_strlit("completed");
    reveal_strlit("failed");
    assert("pending"@.len() == 7);
    assert("transferring"@.len() == 12);
    assert("completed"@.len() == 9);
    assert("failed"@.len() == 6);
    assert("pending"@ != "transferring"@);
    assert("pending"@ != "completed"@);
    assert("pending"@ != "failed"@);
    assert("transferring"@ != "completed"@);
    assert("transferring"@ != "failed"@);
    assert("completed"@ != "failed"@);
}

impl TransferStatus {
    /// The name that the status prints (`Display`).
    pub fn as_str(&self) -> (res: &'static str)
        ensures
            res@ == status_name(*self),
    {
        match self {
            TransferStatus::Pending => "pending",
            TransferStatus::Transferring => "transferring",
            TransferStatus::Completed => "completed",
            TransferStatus::Failed => "failed",
        }
    }

    /// The name that the status prints, as an owned string.
    pub fn to_string(&self) -> (res: String)
        ensures
            res@ == status_name(*self),
    {
        String::from_str(self.as_str())
    }

    /// Reads a status from its name (`FromStr`); any other text is refused
    /// with "Unknown TransferStatus: " and the text.
    pub fn from_name(s: &str) -> (res: Result<TransferStatus, String>)
        ensures
            res matches Ok(st) ==> status_from_name(s@) == Some(st),
            res matches Err(msg) ==> status_from_name(s@) is None && msg@
                == "Unknown TransferStatus: "@ + s@,
    {
        let t = String::from_str(s);
        let p = String::from_str("pending");
        let tr = String::from_str("transferring");
        let c = String::from_str("completed");
        let f = String::from_str("failed");
        if t == p {
            Ok(TransferStatus::Pending)
        } else if t == tr {
            Ok(TransferStatus::Transferring)
        } else if t == c {
            Ok(TransferStatus::Completed)
        } else if t == f {
            Ok(TransferStatus::Failed)
        } else {
            let mut msg = String::from_str("Unknown TransferStatus: ");
            push_str(&mut msg, s);
            Err(msg)
        }
    }
}

impl std::str::FromStr for TransferStatus {
    type Err = String;

    fn from_str(s: &str) -> (res: Result<TransferStatus, String>)
        ensures
            res matches Ok(st) ==> status_from_name(s@) == Some(st),
            res matches Err(msg) ==> status_from_name(s@) is None && msg@
                == "Unknown TransferStatus: "@ + s@,
    {
        TransferStatus::from_name(s)
    }
}

/// How far a transfer has come, as the fraction `done / of`: the front
/// ends show and store it as `done as f64 / of as f64`. Nothing yet is 0
/// of 1, all of it 1 of 1.
#[derive(Debug, Clone, Copy, PartialEq, Eq, Structural)]
pub struct Progress {
    pub done: u64,
    pub of: u64,
}

/// Metadata of one file offered in a message, with the state of its
/// transfer.
#[derive(Debug, Clone, PartialEq)]
pub struct FileAttachment {
    pub id: u32,
    pub name: String,
    pub size: u64,
    pub mtime: u64,
    pub file_type: u32,
    pub progress: Progress,
    pub status: TransferStatus,
}

/// The abstract value of an attachment.
pub struct AttachmentModel {
    pub id: u32,
    pub name: Seq<char>,
    pub size: u64,
    pub mtime: u64,
    pub file_type: u32,
    pub progress: Progress,
    pub status: TransferStatus,
}

impl View for FileAttachment {
    type V = AttachmentModel;

    open spec fn view(&self) -> AttachmentModel {
        AttachmentModel {
            id: self.id,
            name: self.name@,
            size: self.size,
            mtime: self.mtime,
            file_type: self.file_type,
            progress: self.progress,
            status: self.status,
        }
    }
}

/// A request to download one offered file from a peer. The path is where
/// the file is saved.
#[derive(Debug, Clone)]
pub struct FileDownloadRequest {
    pub peer_ip: String,
    pub packet_no: u32,
    pub file_id: u32,
    pub save_path: String,
    pub file_size: u64,
    pub is_directory: bool,
    pub task_id: i64,
}



/// A request from a front end to the engine. Paths are file system paths
/// as text.
#[derive(Debug, Clone)]
pub enum CoreCommand {
    SendMessage { to_ip: String, content: String },
    BroadcastPresence,
    RegisterSharedFile { path: String },
    DownloadFile { peer_ip: String, packet_no: u32, file_id: u32, name: String, size: u64 },
    UpdateIdentity { username: String, hostname: String },
    ScanSubnet { subnet: String },
    ShareFile { peer_ip: String, path: String },
    SendKnock { peer_ip: String },
}

/// Something that happened in the engine, for the front ends and the
/// store.
#[derive(Debug, Clone)]
pub enum CoreEvent {
    PeerStatusChanged {
        ip: String,
        username: String,
        hostname: String,
        nickname: Option<String>,
        online: bool,
    },
    MessageReceived { id: i64, sender_ip: String, content: String, timestamp: i64, username: String },
    FileAttachmentsReceived { sender_ip: String, packet_no: u32, files: Vec<FileAttachment> },
    WindowKnock { sender_ip: String, username: String },
    PeerTyping { sender_ip: String, typing: bool },
    TransferProgress { task_id: i64, progress: Progress, status: TransferStatus },
    TransferStarted {
        task_id: i64,
        peer_ip: String,
        file_name: String,
        file_size: i64,
        is_sending: bool,
    },
}


/// The abstract value of a download request.
pub struct RequestModel {
    pub peer_ip: Seq<char>,
    pub packet_no: u32,
    pub file_id: u32,
    pub save_path: Seq<char>,
    pub file_size: u64,
    pub is_directory: bool,
    pub task_id: i64,
}

impl View for FileDownloadRequest {
    type V = RequestModel;

    open spec fn view(&self) -> RequestModel {
        RequestModel {
            peer_ip: self.peer_ip@,
            packet_no: self.packet_no,
            file_id: self.file_id,
            save_path: self.save_path@,
            file_size: self.file_size,
            is_directory: self.is_directory,
            task_id: self.task_id,
        }
    }
}

/// The abstract value of an optional text.
pub open spec fn opt_view(o: Option<String>) -> Option<Seq<char>> {
    match o {
        Some(s) => Some(s@),
        None => None,
    }
}

/// The abstract value of an event.
pub enum EventModel {
    PeerStatusChanged {
        ip: Seq<char>,
        username: Seq<char>,
        hostname: Seq<char>,
        nickname: Option<Seq<char>>,
        online: bool,
    },
    MessageReceived {
        id: i64,
        sender_ip: Seq<char>,
        content: Seq<char>,
        timestamp: i64,
        username: Seq<char>,
    },
    FileAttachmentsReceived { sender_ip: Seq<char>, packet_no: u32, files: Seq<AttachmentModel> },
    WindowKnock { sender_ip: Seq<char>, username: Seq<char> },
    PeerTyping { sender_ip: Seq<char>, typing: bool },
    TransferProgress { task_id: i64, progress: Progress, status: TransferStatus },
    TransferStarted {
        task_id: i64,
        peer_ip: Seq<char>,
        file_name: Seq<char>,
        file_size: i64,
        is_sending: bool,
    },
}

impl View for CoreEvent {
    type V = EventModel;

    open spec fn view(&self) -> EventModel {
        match self {
            CoreEvent::PeerStatusChanged { ip, username, hostname, nickname, online } =>
                EventModel::PeerStatusChanged {
                ip: ip@,
                username: username@,
                hostname: hostname@,
                nickname: opt_view(*nickname),
                online: *online,
            },
            CoreEvent::MessageReceived { id, sender_ip, content, timestamp, username } =>
                EventModel::MessageReceived {
                id: *id,
                sender_ip: sender_ip@,
                content: content@,
                timestamp: *timestamp,
                username: username@,
            },
            CoreEvent::FileAttachmentsReceived { sender_ip, packet_no, files } =>
                EventModel::FileAttachmentsReceived {
                sender_ip: sender_ip@,
                packet_no: *packet_no,
                files: files@.map_values(|a: FileAttachment| a@),
            },
            CoreEvent::WindowKnock { sender_ip, username } => EventModel::WindowKnock {
                sender_ip: sender_ip@,
                username: username@,
            },
            CoreEvent::PeerTyping { sender_ip, typing } => EventModel::PeerTyping {
                sender_ip: sender_ip@,
                typing: *typing,
            },
            CoreEvent::TransferProgress { task_id, progress, status } =>
                EventModel::TransferProgress {
                task_id: *task_id,
                progress: *progress,
                status: *status,
            },
            CoreEvent::TransferStarted { task_id, peer_ip, file_name, file_size, is_sending } =>
                EventModel::TransferStarted {
                task_id: *task_id,
                peer_ip: peer_ip@,
                file_name: file_name@,
                file_size: *file_size,
                is_sending: *is_sending,
            },
        }
    }
}

// ---------------------------------------------------------------------------
// File sizes for display
// ---------------------------------------------------------------------------

/// `n / d` rounded to the nearest integer, a tie going to the even one.
pub open spec fn div_round_even(n: nat, d: nat) -> nat {
    let q = n / d;
    let r = n % d;
    if 2 * r > d || (2 * r == d && q % 2 == 1) {
        q + 1
    } else {
        q
    }
}

/// The power of two by which an integer `b` is scaled down to fit the
/// 53-bit significand of an `f64` (1 when it already fits).
pub open spec fn f64_scale(b: nat) -> nat
    decreases b,
{
    if b < 0x20_0000_0000_0000 {
        1
    } else {
        2 * f64_scale(b / 2)
    }
}

/// The value of `b as f64` for an unsigned integer `b`: rounded to 53
/// significant bits, a tie going to the even significand.
pub open spec fn u64_as_f64(b: nat) -> nat {
    div_round_even(b, f64_scale(b)) * f64_scale(b)
}

/// What `{:.1}` prints for a number of `tenths`: the integer part, a dot
/// and the tenths digit.
pub open spec fn one_decimal(tenths: nat) -> Seq<char> {
    dec_repr(tenths / 10) + seq!['.', digit_char(tenths % 10)]
}

/// The text that `format_file_size` gives: more than 1 MiB is printed in
/// MB, anything else in KB, with one decimal. The bytes are divided as
/// `f64`s; the division by a power of two is exact, and `{:.1}` rounds the
/// exact quotient to the nearest tenth, a tie going to the even digit.
pub open spec fn file_size_text(bytes: nat) -> Seq<char> {
    if bytes > 1048576 {
        one_decimal(div_round_even(10 * u64_as_f64(bytes), 1048576)) + seq![' ', 'M', 'B']
    } else {
        one_decimal(div_round_even(10 * bytes, 1024)) + seq![' ', 'K', 'B']
    }
}

/// `n / d` rounded to the nearest integer, ties to even.
pub(crate) fn round_div_even(n: u128, d: u128) -> (res: u128)
    requires
        0 < d <= 0x1000_0000_0000_0000_0000_0000_0000_0000,
        n < 0x1000_0000_0000_0000_0000_0000_0000_0000,
    ensures
        res == div_round_even(n as nat, d as nat),
{
    let q = n / d;
    let r = n % d;
    if 2 * r > d || (2 * r == d && q % 2 == 1) {
        q + 1
    } else {
        q
    }
}

/// The value of `b as f64`, as an integer.
#[verifier::spinoff_prover]
pub(crate) fn u64_f64_value(b: u64) -> (res: u128)
    ensures
        res == u64_as_f64(b as nat),
        res <= 0x2_0000_0000_0000_0000,
        b > 0 ==> res > 0,
{
    let mut p: u64 = 1;
    let mut q: u64 = b;
    while q >= 0x20_0000_0000_0000
        invariant
            1 <= p <= 4096,
            q == b / p,
            b > 0 ==> q > 0,
            p * f64_scale(q as nat) == f64_scale(b as nat),
        decreases q,
    {
        proof {
            lemma_fundamental_div_mod(b as int, p as int);
            assert(p * q <= b);
            assert(p * 0x20_0000_0000_0000 <= p * q) by (nonlinear_arith)
                requires
                    q >= 0x20_0000_0000_0000,
                    p >= 1,
            ;
            lemma_div_denominator(b as int, p as int, 2);
            assert(f64_scale(q as nat) == 2 * f64_scale((q / 2) as nat));
            assert(p * f64_scale(q as nat) == (p * 2) * f64_scale((q / 2) as nat)) by (nonlinear_arith)
                requires
                    f64_scale(q as nat) == 2 * f64_scale((q / 2) as nat),
            ;
        }
        p = p * 2;
        q = q / 2;
    }
    assert(f64_scale(q as nat) == 1);
    assert(p == f64_scale(b as nat)) by (nonlinear_arith)
        requires
            p * f64_scale(q as nat) == f64_scale(b as nat),
            f64_scale(q as nat) == 1,
    ;
    let r = round_div_even(b as u128, p as u128);
    assert(r == div_round_even(b as nat, f64_scale(b as nat)));
    proof {
        assert(r <= b / p + 1);
        lemma_fundamental_div_mod(b as int, p as int);
        assert(p * (b / p + 1) <= b + p) by (nonlinear_arith)
            requires
                p * (b / p) + b % p == b,
                0 <= b % p < p,
        ;
        assert(r * p <= (b / p + 1) * p) by (nonlinear_arith)
            requires
                r <= b / p + 1,
                p >= 1,
        ;
        assert((b / p + 1) * p == p * (b / p + 1)) by (nonlinear_arith);
        assert(r >= q);
        assert(b > 0 ==> r * p > 0) by (nonlinear_arith)
            requires
                b > 0 ==> r >= q > 0,
                p >= 1,
        ;
    }
    r * (p as u128)
}

/// A byte count for display (`format_file_size`): "0.5 KB", "1.0 MB".
pub fn format_file_size(bytes: u64) -> (res: String)
    ensures
        res@ == file_size_text(bytes as nat),
{
    let mut s = String::new();
    if bytes > 1048576 {
        let v = u64_f64_value(bytes);
        let tenths = round_div_even(10 * v, 1048576);
        assert(tenths <= 10 * v / 1048576 + 1);
        let t = tenths as u64;
        push_dec(&mut s, t / 10);
        push_char(&mut s, '.');
        push_char(&mut s, digit_to_char(t % 10));
        push_str(&mut s, " MB");
    } else {
        let tenths = round_div_even(10 * (bytes as u128), 1024);
        assert(tenths <= 10 * (bytes as u128) / 1024 + 1);
        let t = tenths as u64;
        push_dec(&mut s, t / 10);
        push_char(&mut s, '.');
        push_char(&mut s, digit_to_char(t % 10));
        push_str(&mut s, " KB");
    }
    proof {
        reveal_strlit(" MB");
        reveal_strlit(" KB");
    }
    assert(s@ =~= file_size_text(bytes as nat));
    s
}

} // verus!
