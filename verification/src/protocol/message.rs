//! Message payloads: the text of a chat message and its attachments, and
//! the request for a file's data.
use vstd::prelude::*;
use crate::network::validation::{
    sanitize_filename, sanitize_message, sanitized_filename, sanitized_message,
};
use crate::numfmt::{hex_repr, lemma_parse_repr, lemma_repr_chars, parse_uint, parse_uint_chars, push_hex};
use crate::text::{
    chars_of, find_char, find_char_exec, lemma_find_char, lemma_find_char_none, push_char, push_str,
    split_all, split_all_exec, string_from_chars, sub_vec, views,
};
use crate::types::{file_size_text, format_file_size, AttachmentModel, FileAttachment};
use super::codec::{
    attachment_views, lemma_first_colon, parse_attachments_text, parse_file_attachments,
    IPMsgPacket, PacketModel,
};
use super::{IPMSG_FILEATTACHOPT, IPMSG_FILE_CLIPBOARD};

verus! {

/// What an `IPMSG_GETFILEDATA` request asks for.
#[derive(Debug, Clone, Copy, PartialEq, Eq, Structural)]
pub struct GetFileDataRequest {
    pub packet_no: u32,
    pub file_id: u32,
    pub offset: u64,
}

/// The request that the text `packet_hex:file_id_hex:offset_hex` stands
/// for: at least three colon-separated fields, each a hex number that fits
/// its type (what follows the third field is ignored).
pub open spec fn getfiledata_request(extra: Seq<char>) -> Option<GetFileDataRequest> {
    let parts = split_all(extra, ':');
    if parts.len() < 3 {
        None
    } else {
        match (
            parse_uint(parts[0], 16, u32::MAX as nat),
            parse_uint(parts[1], 16, u32::MAX as nat),
            parse_uint(parts[2], 16, u64::MAX as nat),
        ) {
            (Some(p), Some(f), Some(o)) => Some(
                GetFileDataRequest { packet_no: p as u32, file_id: f as u32, offset: o as u64 },
            ),
            _ => None,
        }
    }
}

/// The text of a request for a whole file: `packet_hex:file_id_hex:0`.
pub open spec fn getfiledata_text(packet_no: u32, file_id: u32) -> Seq<char> {
    hex_repr(packet_no as nat) + seq![':'] + hex_repr(file_id as nat) + seq![':', '0']
}

/// Reads the extra field of an `IPMSG_GETFILEDATA` packet.
pub fn parse_getfiledata_extra(extra: &str) -> (res: Option<GetFileDataRequest>)
    ensures
        res == getfiledata_request(extra@),
{
    let cs = chars_of(extra);
    let parts = split_all_exec(cs.as_slice(), ':');
    assert(views(parts@) == split_all(extra@, ':'));
    if parts.len() < 3 {
        return None;
    }
    assert(views(parts@)[0] == parts@[0]@);
    assert(views(parts@)[1] == parts@[1]@);
    assert(views(parts@)[2] == parts@[2]@);
    let packet_no = match parse_uint_chars(parts[0].as_slice(), 16, 0xFFFF_FFFF) {
        Some(v) => v as u32,
        None => {
            return None;
        },
    };
    let file_id = match parse_uint_chars(parts[1].as_slice(), 16, 0xFFFF_FFFF) {
        Some(v) => v as u32,
        None => {
            return None;
        },
    };
    let offset = match parse_uint_chars(parts[2].as_slice(), 16, 0xFFFF_FFFF_FFFF_FFFF) {
        Some(v) => v,
        None => {
            return None;
        },
    };
    Some(GetFileDataRequest { packet_no, file_id, offset })
}

/// The extra field that asks a peer for the whole of file `file_id`
/// offered in packet `packet_no`.
pub fn getfiledata_extra(packet_no: u32, file_id: u32) -> (res: String)
    ensures
        res@ == getfiledata_text(packet_no, file_id),
{
    let mut s = String::new();
    push_hex(&mut s, packet_no as u64);
    push_char(&mut s, ':');
    push_hex(&mut s, file_id as u64);
    push_char(&mut s, ':');
    push_char(&mut s, '0');
    assert(s@ =~= getfiledata_text(packet_no, file_id));
    s
}

/// A request written by `getfiledata_extra` reads back as the request for
/// that file from offset zero.
pub proof fn lemma_getfiledata_roundtrip(packet_no: u32, file_id: u32)
    ensures
        getfiledata_request(getfiledata_text(packet_no, file_id)) == Some(
            GetFileDataRequest { packet_no, file_id, offset: 0 },
        ),
{
    let hp = hex_repr(packet_no as nat);
    let hf = hex_repr(file_id as nat);
    let zero = seq!['0'];
    lemma_repr_chars(packet_no as nat, 16);
    lemma_repr_chars(file_id as nat, 16);
    let t = getfiledata_text(packet_no, file_id);
    let rest = hf + seq![':'] + zero;
    assert(t =~= hp + seq![':'] + rest);
    lemma_first_colon(hp, rest);
    lemma_first_colon(hf, zero);
    lemma_find_char_none(zero, ':');
    assert(split_all(zero, ':') == seq![zero]);
    assert(split_all(rest, ':') == seq![hf] + split_all(zero, ':'));
    assert(split_all(t, ':') == seq![hp] + split_all(rest, ':'));
    assert(split_all(t, ':') =~= seq![hp, hf, zero]);
    lemma_parse_repr(packet_no as nat, 16, u32::MAX as nat);
    lemma_parse_repr(file_id as nat, 16, u32::MAX as nat);
    assert(crate::numfmt::all_digits(zero, 16)) by {
        assert(crate::numfmt::is_digit(zero[0], 16));
    }
    assert(crate::numfmt::digits_value(zero, 16) == 0) by {
        assert(zero.drop_last() =~= Seq::<char>::empty());
        assert(zero.last() == '0');
        assert(crate::numfmt::digit_value('0', 16) == Some(0nat));
        assert(crate::numfmt::digits_value(Seq::<char>::empty(), 16) == 0);
    }
}

// ---------------------------------------------------------------------------
// Received chat messages
// ---------------------------------------------------------------------------

/// The line that announces a shared file: `Shared a file: NAME (SIZE)`.
pub open spec fn share_line(name: Seq<char>, size: u64) -> Seq<char> {
    "Shared a file: "@ + name + " ("@ + file_size_text(size as nat) + ")"@
}

/// `text` with `line` added on a line of its own (just `line` when `text`
/// is empty).
pub open spec fn append_line(text: Seq<char>, line: Seq<char>) -> Seq<char> {
    if text.len() == 0 {
        line
    } else {
        text + seq!['\n'] + line
    }
}

/// `text` followed by the share lines of `atts`, in order.
pub open spec fn with_share_lines(text: Seq<char>, atts: Seq<AttachmentModel>) -> Seq<char>
    decreases atts.len(),
{
    if atts.len() == 0 {
        text
    } else {
        append_line(
            with_share_lines(text, atts.drop_last()),
            share_line(atts.last().name, atts.last().size),
        )
    }
}

/// `t` up to its first `{`, where font styling starts.
pub open spec fn cut_at_brace(t: Seq<char>) -> Seq<char> {
    match find_char(t, '{') {
        Some(i) => t.take(i),
        None => t,
    }
}

/// The attachments with their names sanitised.
pub open spec fn sanitize_names(l: Seq<AttachmentModel>) -> Seq<AttachmentModel> {
    l.map_values(|a: AttachmentModel| AttachmentModel { name: sanitized_filename(a.name), ..a })
}

/// The attachments of a received message: what follows the first NUL of
/// `extra`, read as an attachment list, names sanitised; none without a NUL.
pub open spec fn incoming_attachments(p: PacketModel) -> Seq<AttachmentModel> {
    match find_char(p.extra, '\0') {
        Some(i) => sanitize_names(parse_attachments_text(p.extra.skip(i + 1))),
        None => Seq::empty(),
    }
}

/// The text of a received message: `extra` up to its first NUL, cut at the
/// first `{` and sanitised; when the packet carries files, one share line
/// per attachment follows.
pub open spec fn incoming_text(p: PacketModel) -> Seq<char> {
    let raw = match find_char(p.extra, '\0') {
        Some(i) => p.extra.take(i),
        None => p.extra,
    };
    let text = sanitized_message(cut_at_brace(raw));
    let atts = incoming_attachments(p);
    if p.cmd & IPMSG_FILEATTACHOPT == IPMSG_FILEATTACHOPT && atts.len() > 0 {
        with_share_lines(text, atts)
    } else {
        text
    }
}

/// The share line of one attachment.
fn push_share_line(text: &mut String, att: &FileAttachment)
    ensures
        final(text)@ == append_line(old(text)@, share_line(att.name@, att.size)),
{
    let was_empty = text.as_str().is_empty();
    if !was_empty {
        push_char(text, '\n');
    }
    let ghost before = text@;
    push_str(text, "Shared a file: ");
    push_str(text, att.name.as_str());
    push_str(text, " (");
    let size = format_file_size(att.size);
    push_str(text, size.as_str());
    push_str(text, ")");
    assert(text@ =~= before + share_line(att.name@, att.size));
}

/// Splits a received chat message into its text and its attachments
/// (`parse_incoming_message`).
pub fn parse_incoming_message(packet: &IPMsgPacket) -> (res: (String, Vec<FileAttachment>))
    ensures
        res.0@ == incoming_text(packet@),
        attachment_views(res.1@) == incoming_attachments(packet@),
{
    let cs = chars_of(packet.extra.as_str());
    let len = cs.len();
    let (raw, parsed) = match find_char_exec(cs.as_slice(), '\0') {
        Some(i) => {
            proof {
                lemma_find_char(cs@, '\0');
            }
            let head = sub_vec(cs.as_slice(), 0, i);
            let tail = string_from_chars(vstd::slice::slice_subrange(cs.as_slice(), i + 1, len));
            assert(head@ =~= cs@.take(i as int));
            assert(tail@ =~= cs@.skip(i + 1));
            (head, parse_file_attachments(tail.as_str()))
        },
        None => (sub_vec(cs.as_slice(), 0, len), Vec::new()),
    };
    assert(raw@ =~= match find_char(packet.extra@, '\0') {
        Some(i) => packet.extra@.take(i),
        None => packet.extra@,
    });
    let cut = match find_char_exec(raw.as_slice(), '{') {
        Some(j) => {
            proof {
                lemma_find_char(raw@, '{');
            }
            sub_vec(raw.as_slice(), 0, j)
        },
        None => raw,
    };
    let cut_text = string_from_chars(cut.as_slice());
    let mut text = sanitize_message(cut_text.as_str());
    let ghost text0 = text@;
    let mut atts: Vec<FileAttachment> = Vec::new();
    let mut k: usize = 0;
    while k < parsed.len()
        invariant
            k <= parsed@.len(),
            attachment_views(atts@) == sanitize_names(attachment_views(parsed@).take(k as int)),
        decreases parsed@.len() - k,
    {
        let a = &parsed[k];
        let name = sanitize_filename(a.name.as_str());
        let ghost old_atts = atts@;
        atts.push(
            FileAttachment {
                id: a.id,
                name,
                size: a.size,
                mtime: a.mtime,
                file_type: a.file_type,
                progress: a.progress,
                status: a.status,
            },
        );
        assert(attachment_views(atts@) =~= attachment_views(old_atts).push(atts@[k as int]@));
        assert(attachment_views(parsed@).take(k + 1) =~= attachment_views(parsed@).take(
            k as int,
        ).push(parsed@[k as int]@));
        k = k + 1;
    }
    assert(attachment_views(parsed@).take(parsed@.len() as int) =~= attachment_views(parsed@));
    assert(attachment_views(atts@) == incoming_attachments(packet@)) by {
        if find_char(packet.extra@, '\0') is None {
            assert(attachment_views(parsed@) =~= Seq::<AttachmentModel>::empty());
            assert(sanitize_names(Seq::<AttachmentModel>::empty()) =~= Seq::<AttachmentModel>::empty());
        }
    }
    if packet.is_file_attach() && atts.len() > 0 {
        let mut j: usize = 0;
        assert(attachment_views(atts@).take(0) =~= Seq::<AttachmentModel>::empty());
        while j < atts.len()
            invariant
                j <= atts@.len(),
                text@ == with_share_lines(text0, attachment_views(atts@).take(j as int)),
            decreases atts@.len() - j,
        {
            push_share_line(&mut text, &atts[j]);
            let ghost v = attachment_views(atts@);
            assert(v.take(j + 1).drop_last() =~= v.take(j as int));
            assert(v.take(j + 1).last() == atts@[j as int]@);
            j = j + 1;
        }
        assert(attachment_views(atts@).take(atts@.len() as int) =~= attachment_views(atts@));
    }
    (text, atts)
}

/// Whether an attachment is an inline clipboard image.
pub open spec fn is_clipboard(a: AttachmentModel) -> bool {
    a.file_type & IPMSG_FILE_CLIPBOARD == IPMSG_FILE_CLIPBOARD
}

/// The clipboard images among `l`, in order.
pub open spec fn clipboard_only(l: Seq<AttachmentModel>) -> Seq<AttachmentModel>
    decreases l.len(),
{
    if l.len() == 0 {
        l
    } else if is_clipboard(l.last()) {
        clipboard_only(l.drop_last()).push(l.last())
    } else {
        clipboard_only(l.drop_last())
    }
}

/// The attachments that are clipboard images, which are fetched without
/// asking the user.
pub fn get_clipboard_downloads(attachments: &[FileAttachment]) -> (res: Vec<FileAttachment>)
    ensures
        attachment_views(res@) == clipboard_only(attachment_views(attachments@)),
{
    let mut res: Vec<FileAttachment> = Vec::new();
    let mut i: usize = 0;
    assert(attachment_views(attachments@).take(0) =~= Seq::<AttachmentModel>::empty());
    while i < attachments.len()
        invariant
            i <= attachments@.len(),
            attachment_views(res@) == clipboard_only(attachment_views(attachments@).take(i as int)),
        decreases attachments@.len() - i,
    {
        let a = &attachments[i];
        let ghost v = attachment_views(attachments@);
        assert(v.take(i + 1).drop_last() =~= v.take(i as int));
        assert(v.take(i + 1).last() == a@);
        if (a.file_type & IPMSG_FILE_CLIPBOARD) == IPMSG_FILE_CLIPBOARD {
            let ghost old_res = res@;
            res.push(
                FileAttachment {
                    id: a.id,
                    name: a.name.clone(),
                    size: a.size,
                    mtime: a.mtime,
                    file_type: a.file_type,
                    progress: a.progress,
                    status: a.status,
                },
            );
            assert(attachment_views(res@) =~= attachment_views(old_res).push(a@));
        }
        i = i + 1;
    }
    assert(attachment_views(attachments@).take(attachments@.len() as int) =~= attachment_views(
        attachments@,
    ));
    res
}

} // verus!
