//! Text helpers of the views.
use vstd::prelude::*;
use crate::text::{chars_of, is_ws, is_whitespace_char, push_char, push_str, trim_end_ws};
use crate::network::peer_directory::{ipv4_text, ipv4_to_string};
use crate::types::{AttachmentModel, CoreCommand, FileAttachment, Progress, TransferStatus};
use crate::ui::app_state::Peer;

verus! {

/// A colour of the views, by its red, green and blue parts.
#[derive(Clone, Copy, Debug, PartialEq, Eq, Structural)]
pub struct Rgb {
    pub r: u8,
    pub g: u8,
    pub b: u8,
}

/// The colour of a peer's status dot: green (`4caf50`) when it is online,
/// grey (`9e9e9e`) when it is not.
pub fn peer_status_color(peer: &Peer) -> (res: Rgb)
    ensures
        peer.online ==> res == (Rgb { r: 0x4c, g: 0xaf, b: 0x50 }),
        !peer.online ==> res == (Rgb { r: 0x9e, g: 0x9e, b: 0x9e }),
{
    if peer.online {
        Rgb { r: 0x4c, g: 0xaf, b: 0x50 }
    } else {
        Rgb { r: 0x9e, g: 0x9e, b: 0x9e }
    }
}

/// What the action button of a file card does to `file`, offered by
/// `peer_ip` in packet `packet_no`: a pending or failed file is fetched
/// (the download command, when the packet is known) and shown as
/// transferring; a transfer is cancelled back to pending with no progress;
/// a completed file stays as it is.
pub fn file_card_click(file: &mut FileAttachment, peer_ip: u32, packet_no: Option<u32>) -> (res: Option<
    CoreCommand,
>)
    ensures
        match old(file).status {
            TransferStatus::Pending | TransferStatus::Failed => {
                &&& final(file)@ == (AttachmentModel { status: TransferStatus::Transferring, ..old(file)@ })
                &&& match packet_no {
                    Some(n) => res matches Some(
                        CoreCommand::DownloadFile { peer_ip: ip, packet_no: pn, file_id, name, size },
                    ) && ip@ == ipv4_text(peer_ip) && pn == n && file_id == old(file).id && name@
                        == old(file).name@ && size == old(file).size,
                    None => res is None,
                }
            },
            TransferStatus::Transferring => final(file)@ == (AttachmentModel {
                status: TransferStatus::Pending,
                progress: Progress { done: 0, of: 1 },
                ..old(file)@
            }) && res is None,
            TransferStatus::Completed => final(file)@ == old(file)@ && res is None,
        },
{
    match file.status {
        TransferStatus::Pending | TransferStatus::Failed => {
            let cmd = match packet_no {
                Some(n) => Some(
                    CoreCommand::DownloadFile {
                        peer_ip: ipv4_to_string(peer_ip),
                        packet_no: n,
                        file_id: file.id,
                        name: file.name.clone(),
                        size: file.size,
                    },
                ),
                None => None,
            };
            file.status = TransferStatus::Transferring;
            cmd
        },
        TransferStatus::Transferring => {
            file.status = TransferStatus::Pending;
            file.progress = Progress { done: 0, of: 1 };
            None
        },
        TransferStatus::Completed => None,
    }
}

/// `s` cut for display: when it has more than `max_len` characters, its
/// first `max_len - 3` characters (all `max_len` of them when `max_len` is
/// below 3), trailing whitespace removed, then `...`.
pub open spec fn truncated(s: Seq<char>, max_len: nat) -> Seq<char> {
    if s.len() > max_len {
        let take_len = if max_len >= 3 {
            (max_len - 3) as nat
        } else {
            max_len
        };
        trim_end_ws(s.take(take_len as int)) + seq!['.', '.', '.']
    } else {
        s
    }
}

/// Cuts `s` to fit `max_len` characters for display (`truncate_string`);
/// from a limit of 3 on, the result is never longer than the limit.
pub fn truncate_string(s: &str, max_len: usize) -> (res: String)
    ensures
        res@ == truncated(s@, max_len as nat),
        max_len >= 3 ==> res@.len() <= max_len,
{
    let cs = chars_of(s);
    if cs.len() > max_len {
        let take_len = if max_len >= 3 {
            max_len - 3
        } else {
            max_len
        };
        let mut end = take_len;
        let ghost t = cs@.take(take_len as int);
        assert(t.take(end as int) =~= t);
        while end > 0 && is_whitespace_char(cs[end - 1])
            invariant
                end <= take_len <= cs@.len(),
                t == cs@.take(take_len as int),
                trim_end_ws(t.take(end as int)) == trim_end_ws(t),
            decreases end,
        {
            assert(t.take(end as int).drop_last() =~= t.take(end - 1));
            end = end - 1;
        }
        assert(trim_end_ws(t.take(end as int)) == t.take(end as int));
        let mut out = String::new();
        let mut i: usize = 0;
        while i < end
            invariant
                i <= end <= cs@.len(),
                out@ == cs@.take(i as int),
            decreases end - i,
        {
            push_char(&mut out, cs[i]);
            assert(cs@.take(i + 1) =~= cs@.take(i as int).push(cs@[i as int]));
            i = i + 1;
        }
        assert(cs@.take(end as int) =~= t.take(end as int));
        push_str(&mut out, "...");
        proof {
            reveal_strlit("...");
        }
        assert(out@ =~= truncated(s@, max_len as nat));
        out
    } else {
        String::from_str(s)
    }
}

} // verus!
