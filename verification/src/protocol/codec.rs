//! The packet text `version:packet_no:username:hostname:cmd:extra\0` and
//! the attachment list `id:name:size:mtime:type:\x07...` inside `extra`.
use vstd::prelude::*;
use crate::error::{ProtocolError, ProtocolErrorModel};
use crate::numfmt::{
    dec_repr, hex_repr, lemma_parse_repr, lemma_repr_chars, parse_uint, parse_uint_chars, push_dec,
    push_hex,
};
use crate::text::{
    chars_of, escape_colons, escape_colons_exec, find_char, find_char_exec, lemma_find_char,
    lemma_find_char_at, lemma_find_char_none, lemma_rfind_char_at, lemma_unescape_escape, push_char, rfind_char, push_chars, push_str, rsplitn, rsplitn_exec, split_all,
    split_all_exec, splitn, splitn_exec, string_from_chars, sub_vec, trim_end_char,
    trim_end_char_len, unescape_colons, unescape_colons_exec, views,
};
use crate::types::{AttachmentModel, FileAttachment, Progress, TransferStatus};
use super::{IPMSG_FILEATTACHOPT, IPMSG_SENDCHECKOPT};
use super::transcoder::{fits_decode_buffer, gbk_decode_bytes, gbk_encode_str};

verus! {

/// One IPMsg packet.
#[derive(Debug, Clone, PartialEq, Eq)]
pub struct IPMsgPacket {
    pub version: String,
    pub packet_no: u32,
    pub username: String,
    pub hostname: String,
    pub cmd: u32,
    pub extra: String,
}

/// The abstract value of a packet.
pub struct PacketModel {
    pub version: Seq<char>,
    pub packet_no: u32,
    pub username: Seq<char>,
    pub hostname: Seq<char>,
    pub cmd: u32,
    pub extra: Seq<char>,
}

impl View for IPMsgPacket {
    type V = PacketModel;

    open spec fn view(&self) -> PacketModel {
        PacketModel {
            version: self.version@,
            packet_no: self.packet_no,
            username: self.username@,
            hostname: self.hostname@,
            cmd: self.cmd,
            extra: self.extra@,
        }
    }
}

/// The text of a packet: the six fields joined by `:` and a closing NUL.
pub open spec fn packet_text(p: PacketModel) -> Seq<char> {
    p.version + seq![':'] + dec_repr(p.packet_no as nat) + seq![':'] + p.username + seq![':']
        + p.hostname + seq![':'] + dec_repr(p.cmd as nat) + seq![':'] + p.extra + seq!['\0']
}

/// What reading the text `s` as a packet gives: trailing NULs are dropped,
/// the rest is cut at the first five colons, and the packet number and the
/// command must be decimal `u32`s.
pub open spec fn parse_packet_text(s: Seq<char>) -> Result<PacketModel, ProtocolErrorModel> {
    let parts = splitn(trim_end_char(s, '\0'), 6, ':');
    if parts.len() < 5 {
        Err(ProtocolErrorModel::TooFewFields(parts.len()))
    } else {
        match parse_uint(parts[1], 10, u32::MAX as nat) {
            None => Err(ProtocolErrorModel::InvalidPacketNo(parts[1])),
            Some(packet_no) => match parse_uint(parts[4], 10, u32::MAX as nat) {
                None => Err(ProtocolErrorModel::InvalidCommand(parts[4])),
                Some(cmd) => Ok(
                    PacketModel {
                        version: parts[0],
                        packet_no: packet_no as u32,
                        username: parts[2],
                        hostname: parts[3],
                        cmd: cmd as u32,
                        extra: if parts.len() > 5 {
                            parts[5]
                        } else {
                            Seq::empty()
                        },
                    },
                ),
            },
        }
    }
}

/// A packet whose text reads back as itself: no colon in the first three
/// text fields, and no NUL at the end of `extra`.
pub open spec fn packet_fields_clean(p: PacketModel) -> bool {
    &&& forall|i: int| 0 <= i < p.version.len() ==> p.version[i] != ':'
    &&& forall|i: int| 0 <= i < p.username.len() ==> p.username[i] != ':'
    &&& forall|i: int| 0 <= i < p.hostname.len() ==> p.hostname[i] != ':'
    &&& (p.extra.len() > 0 ==> p.extra.last() != '\0')
}

/// `a:b` split at its first colon, when `a` has none.
pub proof fn lemma_first_colon(a: Seq<char>, b: Seq<char>)
    requires
        forall|i: int| 0 <= i < a.len() ==> a[i] != ':',
    ensures
        find_char(a + seq![':'] + b, ':') == Some(a.len() as int),
        (a + seq![':'] + b).take(a.len() as int) == a,
        (a + seq![':'] + b).skip(a.len() as int + 1) == b,
{
    let s = a + seq![':'] + b;
    assert forall|j: int| 0 <= j < a.len() implies s[j] != ':' by {
        assert(s[j] == a[j]);
    }
    lemma_find_char_at(s, ':', a.len() as int);
    assert(s.take(a.len() as int) =~= a);
    assert(s.skip(a.len() as int + 1) =~= b);
}

/// The digits of a number hold no colon.
pub proof fn lemma_dec_no_colon(n: nat)
    ensures
        forall|i: int| 0 <= i < dec_repr(n).len() ==> dec_repr(n)[i] != ':',
{
    lemma_repr_chars(n, 10);
}

/// Splitting `a:b` when `a` has no colon gives `a` first.
pub proof fn lemma_splitn_step(a: Seq<char>, b: Seq<char>, n: nat)
    requires
        forall|i: int| 0 <= i < a.len() ==> a[i] != ':',
        n >= 1,
    ensures
        splitn(a + seq![':'] + b, n + 1, ':') == seq![a] + splitn(b, n, ':'),
{
    lemma_first_colon(a, b);
}

/// Reading a packet's text gives the packet back.
pub proof fn lemma_packet_roundtrip(p: PacketModel)
    requires
        packet_fields_clean(p),
    ensures
        parse_packet_text(packet_text(p)) == Ok::<PacketModel, ProtocolErrorModel>(p),
{
    let n = dec_repr(p.packet_no as nat);
    let c = dec_repr(p.cmd as nat);
    let col = seq![':'];
    let r4 = c + col + p.extra;
    let r3 = p.hostname + col + r4;
    let r2 = p.username + col + r3;
    let r1 = n + col + r2;
    let t = p.version + col + r1;
    let s = packet_text(p);
    assert(s =~= t.push('\0'));
    assert(t.push('\0').drop_last() =~= t);
    assert(t.last() != '\0') by {
        if p.extra.len() > 0 {
            assert(t.last() == p.extra.last());
        } else {
            assert(t.last() == ':');
        }
    }
    assert(trim_end_char(t, '\0') == t);
    assert(trim_end_char(s, '\0') == t);
    lemma_dec_no_colon(p.packet_no as nat);
    lemma_dec_no_colon(p.cmd as nat);
    lemma_splitn_step(c, p.extra, 1);
    lemma_splitn_step(p.hostname, r4, 2);
    lemma_splitn_step(p.username, r3, 3);
    lemma_splitn_step(n, r2, 4);
    lemma_splitn_step(p.version, r1, 5);
    assert(splitn(p.extra, 1, ':') == seq![p.extra]);
    let parts = splitn(t, 6, ':');
    assert(parts =~= seq![p.version, n, p.username, p.hostname, c, p.extra]);
    lemma_parse_repr(p.packet_no as nat, 10, u32::MAX as nat);
    lemma_parse_repr(p.cmd as nat, 10, u32::MAX as nat);
}

impl IPMsgPacket {
    /// The packet's text (`version:packet_no:username:hostname:cmd:extra\0`).
    pub fn serialize_to_string(&self) -> (res: String)
        ensures
            res@ == packet_text(self@),
    {
        let mut s = String::new();
        push_str(&mut s, self.version.as_str());
        push_char(&mut s, ':');
        push_dec(&mut s, self.packet_no as u64);
        push_char(&mut s, ':');
        push_str(&mut s, self.username.as_str());
        push_char(&mut s, ':');
        push_str(&mut s, self.hostname.as_str());
        push_char(&mut s, ':');
        push_dec(&mut s, self.cmd as u64);
        push_char(&mut s, ':');
        push_str(&mut s, self.extra.as_str());
        push_char(&mut s, '\0');
        assert(s@ =~= packet_text(self@));
        s
    }

    /// Reads a packet from its text (`FromStr`).
    pub fn parse_str(s: &str) -> (res: Result<IPMsgPacket, ProtocolError>)
        ensures
            match res {
                Ok(p) => parse_packet_text(s@) == Ok::<PacketModel, ProtocolErrorModel>(p@),
                Err(e) => parse_packet_text(s@) == Err::<PacketModel, ProtocolErrorModel>(e@),
            },
    {
        let cs = chars_of(s);
        let n = trim_end_char_len(cs.as_slice(), '\0');
        let trimmed = sub_vec(cs.as_slice(), 0, n);
        assert(trimmed@ == cs@.take(n as int));
        let parts = splitn_exec(trimmed.as_slice(), 6, ':');
        assert(views(parts@) == splitn(trim_end_char(s@, '\0'), 6, ':'));
        if parts.len() < 5 {
            assert(views(parts@).len() == parts@.len());
            return Err(ProtocolError::TooFewFields(parts.len()));
        }
        assert(views(parts@)[1] == parts@[1]@);
        assert(views(parts@)[4] == parts@[4]@);
        let packet_no = match parse_uint_chars(parts[1].as_slice(), 10, 0xFFFF_FFFF) {
            Some(v) => v as u32,
            None => {
                return Err(ProtocolError::InvalidPacketNo(string_from_chars(parts[1].as_slice())));
            },
        };
        let cmd = match parse_uint_chars(parts[4].as_slice(), 10, 0xFFFF_FFFF) {
            Some(v) => v as u32,
            None => {
                return Err(ProtocolError::InvalidCommand(string_from_chars(parts[4].as_slice())));
            },
        };
        assert(views(parts@)[0] == parts@[0]@);
        assert(views(parts@)[2] == parts@[2]@);
        assert(views(parts@)[3] == parts@[3]@);
        let extra = if parts.len() > 5 {
            assert(views(parts@)[5] == parts@[5]@);
            string_from_chars(parts[5].as_slice())
        } else {
            String::new()
        };
        Ok(
            IPMsgPacket {
                version: string_from_chars(parts[0].as_slice()),
                packet_no,
                username: string_from_chars(parts[2].as_slice()),
                hostname: string_from_chars(parts[3].as_slice()),
                cmd,
                extra,
            },
        )
    }

    /// The packet's text in the wire encoding (GBK).
    pub fn serialize(&self) -> (res: Vec<u8>)
        requires
            packet_text(self@).len() <= 0x0100_0000,
        ensures
            res@ == super::transcoder::gbk_encode(packet_text(self@)),
    {
        let s = self.serialize_to_string();
        gbk_encode_str(s.as_str())
    }

    /// Reads a packet from wire bytes (GBK); `None` when the text is not a packet.
    pub fn parse(bytes: &[u8]) -> (res: Option<IPMsgPacket>)
        requires
            fits_decode_buffer(bytes@.len()),
        ensures
            match res {
                Some(p) => parse_packet_text(super::transcoder::gbk_decode(bytes@)) == Ok::<
                    PacketModel,
                    ProtocolErrorModel,
                >(p@),
                None => parse_packet_text(super::transcoder::gbk_decode(bytes@)) is Err,
            },
    {
        let text = gbk_decode_bytes(bytes);
        match IPMsgPacket::parse_str(text.as_str()) {
            Ok(p) => Some(p),
            Err(_) => None,
        }
    }

    /// The base command: the low eight bits of `cmd`.
    pub fn command_base(&self) -> (res: u32)
        ensures
            res == self.cmd & 0xFF,
            res == self.cmd % 256,
    {
        let c = self.cmd;
        assert(c & 0xFF == c % 256) by (bit_vector);
        c & 0x000000FF
    }

    /// Whether every bit of `option_flag` is set in `cmd`.
    pub fn has_option(&self, option_flag: u32) -> (res: bool)
        ensures
            res == (self.cmd & option_flag == option_flag),
    {
        (self.cmd & option_flag) == option_flag
    }

    /// Whether the packet carries file attachments.
    pub fn is_file_attach(&self) -> (res: bool)
        ensures
            res == (self.cmd & IPMSG_FILEATTACHOPT == IPMSG_FILEATTACHOPT),
    {
        self.has_option(IPMSG_FILEATTACHOPT)
    }

    /// Whether the sender asks for an acknowledgement.
    pub fn is_send_check(&self) -> (res: bool)
        ensures
            res == (self.cmd & IPMSG_SENDCHECKOPT == IPMSG_SENDCHECKOPT),
    {
        self.has_option(IPMSG_SENDCHECKOPT)
    }
}

impl std::str::FromStr for IPMsgPacket {
    type Err = ProtocolError;

    fn from_str(s: &str) -> (res: Result<IPMsgPacket, ProtocolError>)
        ensures
            match res {
                Ok(p) => parse_packet_text(s@) == Ok::<PacketModel, ProtocolErrorModel>(p@),
                Err(e) => parse_packet_text(s@) == Err::<PacketModel, ProtocolErrorModel>(e@),
            },
    {
        IPMsgPacket::parse_str(s)
    }
}

// ---------------------------------------------------------------------------
// Attachment lists
// ---------------------------------------------------------------------------

/// The text of one attachment: `id:name:size:mtime:type:` in hex, colons of
/// the name doubled, and a closing BEL (`\x07`).
pub open spec fn attachment_text(a: AttachmentModel) -> Seq<char> {
    hex_repr(a.id as nat) + seq![':'] + escape_colons(a.name) + seq![':'] + hex_repr(a.size as nat)
        + seq![':'] + hex_repr(a.mtime as nat) + seq![':'] + hex_repr(a.file_type as nat) + seq![
        ':',
        '\x07',
    ]
}

/// The text of a list of attachments, one after another.
pub open spec fn attachments_text(l: Seq<AttachmentModel>) -> Seq<char>
    decreases l.len(),
{
    if l.len() == 0 {
        Seq::empty()
    } else {
        attachments_text(l.drop_last()) + attachment_text(l.last())
    }
}

/// A hex field as the reader takes it: a bad field counts as zero.
pub open spec fn hex_or_zero(s: Seq<char>, max: nat) -> nat {
    match parse_uint(s, 16, max) {
        Some(v) => v,
        None => 0,
    }
}

/// What one BEL-separated piece of an attachment list gives: the piece
/// without trailing colons must split from the right into four parts, and
/// the first of them must hold a colon between the id and the name.
pub open spec fn parse_attachment_piece(p: Seq<char>) -> Option<AttachmentModel> {
    let parts = rsplitn(trim_end_char(p, ':'), 4, ':');
    if parts.len() != 4 {
        None
    } else {
        match find_char(parts[3], ':') {
            None => None,
            Some(pos) => Some(
                AttachmentModel {
                    id: hex_or_zero(parts[3].take(pos), u32::MAX as nat) as u32,
                    name: unescape_colons(parts[3].skip(pos + 1)),
                    size: hex_or_zero(parts[2], u64::MAX as nat) as u64,
                    mtime: hex_or_zero(parts[1], u64::MAX as nat) as u64,
                    file_type: hex_or_zero(parts[0], u32::MAX as nat) as u32,
                    progress: Progress { done: 0, of: 1 },
                    status: TransferStatus::Pending,
                },
            ),
        }
    }
}

/// The attachments read from pieces, skipping empty and malformed ones.
pub open spec fn parse_attachment_pieces(pieces: Seq<Seq<char>>) -> Seq<AttachmentModel>
    decreases pieces.len(),
{
    if pieces.len() == 0 {
        Seq::empty()
    } else {
        let rest = parse_attachment_pieces(pieces.drop_last());
        let p = pieces.last();
        if p.len() == 0 {
            rest
        } else {
            match parse_attachment_piece(p) {
                Some(a) => rest.push(a),
                None => rest,
            }
        }
    }
}

/// What reading an attachment list gives.
pub open spec fn parse_attachments_text(s: Seq<char>) -> Seq<AttachmentModel> {
    parse_attachment_pieces(split_all(s, '\x07'))
}

/// The abstract values of a list of attachments.
pub open spec fn attachment_views(l: Seq<FileAttachment>) -> Seq<AttachmentModel> {
    l.map_values(|a: FileAttachment| a@)
}

/// The text of one attachment (`serialize_file_attachment`).
pub fn serialize_file_attachment(att: &FileAttachment) -> (res: String)
    ensures
        res@ == attachment_text(att@),
{
    let name = chars_of(att.name.as_str());
    let esc = escape_colons_exec(name.as_slice());
    let mut s = String::new();
    push_hex(&mut s, att.id as u64);
    push_char(&mut s, ':');
    push_chars(&mut s, esc.as_slice());
    push_char(&mut s, ':');
    push_hex(&mut s, att.size);
    push_char(&mut s, ':');
    push_hex(&mut s, att.mtime);
    push_char(&mut s, ':');
    push_hex(&mut s, att.file_type as u64);
    push_char(&mut s, ':');
    push_char(&mut s, '\x07');
    assert(s@ =~= attachment_text(att@));
    s
}

/// The text of a list of attachments (`serialize_file_attachments`).
pub fn serialize_file_attachments(attachments: &[FileAttachment]) -> (res: String)
    ensures
        res@ == attachments_text(attachment_views(attachments@)),
{
    let mut s = String::new();
    let mut i: usize = 0;
    assert(attachment_views(attachments@).take(0) =~= Seq::<AttachmentModel>::empty());
    while i < attachments.len()
        invariant
            i <= attachments@.len(),
            s@ == attachments_text(attachment_views(attachments@).take(i as int)),
        decreases attachments@.len() - i,
    {
        let one = serialize_file_attachment(&attachments[i]);
        push_str(&mut s, one.as_str());
        let ghost v = attachment_views(attachments@);
        assert(v.take(i + 1).drop_last() =~= v.take(i as int));
        assert(v.take(i + 1).last() == attachments@[i as int]@);
        i = i + 1;
    }
    assert(attachment_views(attachments@).take(attachments@.len() as int) =~= attachment_views(
        attachments@,
    ));
    s
}

/// Reads one hex field, counting a bad one as zero.
pub(crate) fn hex_field(s: &[char], max: u64) -> (res: u64)
    ensures
        res as nat == hex_or_zero(s@, max as nat),
        res <= max,
{
    match parse_uint_chars(s, 16, max) {
        Some(v) => v,
        None => 0,
    }
}

/// Reads one BEL-separated piece of an attachment list.
fn parse_attachment_piece_exec(p: &[char]) -> (res: Option<FileAttachment>)
    ensures
        match res {
            Some(a) => parse_attachment_piece(p@) == Some(a@),
            None => parse_attachment_piece(p@) is None,
        },
{
    let n = trim_end_char_len(p, ':');
    let trimmed = sub_vec(p, 0, n);
    let parts = rsplitn_exec(trimmed.as_slice(), 4, ':');
    assert(views(parts@) == rsplitn(trim_end_char(p@, ':'), 4, ':'));
    if parts.len() != 4 {
        return None;
    }
    assert(views(parts@)[0] == parts@[0]@);
    assert(views(parts@)[1] == parts@[1]@);
    assert(views(parts@)[2] == parts@[2]@);
    assert(views(parts@)[3] == parts@[3]@);
    let first = parts[3].as_slice();
    match find_char_exec(first, ':') {
        None => None,
        Some(pos) => {
            proof {
                lemma_find_char(first@, ':');
            }
            let len = first.len();
            let id_part = slice_subrange_chars(first, 0, pos);
            let name_part = slice_subrange_chars(first, pos + 1, len);
            let name = unescape_colons_exec(name_part);
            let id = hex_field(id_part, 0xFFFF_FFFF) as u32;
            let file_type = hex_field(parts[0].as_slice(), 0xFFFF_FFFF) as u32;
            let mtime = hex_field(parts[1].as_slice(), 0xFFFF_FFFF_FFFF_FFFF);
            let size = hex_field(parts[2].as_slice(), 0xFFFF_FFFF_FFFF_FFFF);
            Some(
                FileAttachment {
                    id,
                    name: string_from_chars(name.as_slice()),
                    size,
                    mtime,
                    file_type,
                    progress: Progress { done: 0, of: 1 },
                    status: TransferStatus::Pending,
                },
            )
        },
    }
}

/// `s[i..j]` of a character slice.
fn slice_subrange_chars(s: &[char], i: usize, j: usize) -> (res: &[char])
    requires
        i <= j <= s@.len(),
    ensures
        res@ == s@.subrange(i as int, j as int),
{
    vstd::slice::slice_subrange(s, i, j)
}

/// Reads an attachment list (`parse_file_attachments`).
pub fn parse_file_attachments(extra_part: &str) -> (res: Vec<FileAttachment>)
    ensures
        attachment_views(res@) == parse_attachments_text(extra_part@),
{
    let cs = chars_of(extra_part);
    let pieces = split_all_exec(cs.as_slice(), '\x07');
    let ghost pv = views(pieces@);
    let mut res: Vec<FileAttachment> = Vec::new();
    let mut i: usize = 0;
    assert(pv.take(0) =~= Seq::<Seq<char>>::empty());
    assert(attachment_views(res@) =~= Seq::<AttachmentModel>::empty());
    while i < pieces.len()
        invariant
            i <= pieces@.len(),
            pv == views(pieces@),
            attachment_views(res@) == parse_attachment_pieces(pv.take(i as int)),
        decreases pieces@.len() - i,
    {
        let p = pieces[i].as_slice();
        assert(pv.take(i + 1).drop_last() =~= pv.take(i as int));
        assert(pv.take(i + 1).last() == p@);
        if p.len() > 0 {
            match parse_attachment_piece_exec(p) {
                Some(a) => {
                    let ghost old_res = res@;
                    res.push(a);
                    assert(attachment_views(res@) =~= attachment_views(old_res).push(a@));
                },
                None => {},
            }
        }
        i = i + 1;
    }
    assert(pv.take(pieces@.len() as int) =~= pv);
    res
}

} // verus!

verus! {

/// An attachment as the reader returns it: with no transfer progress and
/// the status pending.
pub open spec fn as_received(a: AttachmentModel) -> AttachmentModel {
    AttachmentModel { progress: Progress { done: 0, of: 1 }, status: TransferStatus::Pending, ..a }
}

/// The text of one attachment without its closing BEL.
pub open spec fn attachment_body(a: AttachmentModel) -> Seq<char> {
    hex_repr(a.id as nat) + seq![':'] + escape_colons(a.name) + seq![':'] + hex_repr(a.size as nat)
        + seq![':'] + hex_repr(a.mtime as nat) + seq![':'] + hex_repr(a.file_type as nat) + seq![
        ':',
    ]
}

pub open spec fn no_char(s: Seq<char>, c: char) -> bool {
    forall|i: int| 0 <= i < s.len() ==> s[i] != c
}

/// `a:b` split at its last colon, when `b` has none.
pub proof fn lemma_last_colon(a: Seq<char>, b: Seq<char>)
    requires
        no_char(b, ':'),
    ensures
        rfind_char(a + seq![':'] + b, ':') == Some(a.len() as int),
        (a + seq![':'] + b).take(a.len() as int) == a,
        (a + seq![':'] + b).skip(a.len() as int + 1) == b,
{
    let s = a + seq![':'] + b;
    assert forall|j: int| a.len() < j < s.len() implies s[j] != ':' by {
        assert(s[j] == b[j - a.len() - 1]);
    }
    lemma_rfind_char_at(s, ':', a.len() as int);
    assert(s.take(a.len() as int) =~= a);
    assert(s.skip(a.len() as int + 1) =~= b);
}

/// Splitting at a separator that closes the first part.
pub proof fn lemma_split_all_concat(u: Seq<char>, v: Seq<char>, c: char)
    requires
        u.len() > 0,
        u.last() == c,
    ensures
        split_all(u + v, c) == split_all(u, c).drop_last() + split_all(v, c),
    decreases u.len(),
{
    lemma_find_char(u, c);
    let i = find_char(u, c)->0;
    let w = u + v;
    assert forall|j: int| 0 <= j < i implies w[j] != c by {
        assert(w[j] == u[j]);
    }
    lemma_find_char_at(w, c, i);
    assert(w.take(i) =~= u.take(i));
    if i + 1 == u.len() {
        assert(w.skip(i + 1) =~= v);
        assert(u.skip(i + 1) =~= Seq::<char>::empty());
        lemma_find_char_none(Seq::<char>::empty(), c);
        assert(split_all(Seq::<char>::empty(), c) == seq![Seq::<char>::empty()]);
        assert(split_all(u, c) =~= seq![u.take(i), Seq::<char>::empty()]);
        assert(split_all(u, c).drop_last() =~= seq![u.take(i)]);
    } else {
        let u2 = u.skip(i + 1);
        assert(u2.last() == c);
        assert(w.skip(i + 1) =~= u2 + v);
        lemma_split_all_concat(u2, v, c);
        assert(split_all(u, c) == seq![u.take(i)] + split_all(u2, c));
        assert(split_all(u2, c).len() >= 1);
        assert((seq![u.take(i)] + split_all(u2, c)).drop_last() =~= seq![u.take(i)] + split_all(
            u2,
            c,
        ).drop_last());
    }
}

/// A piece without the separator, closed by it, splits into itself and an empty piece.
pub proof fn lemma_split_all_single(x: Seq<char>, c: char)
    requires
        no_char(x, c),
    ensures
        split_all(x.push(c), c) == seq![x, Seq::<char>::empty()],
{
    let u = x.push(c);
    assert forall|j: int| 0 <= j < x.len() implies u[j] != c by {
        assert(u[j] == x[j]);
    }
    lemma_find_char_at(u, c, x.len() as int);
    assert(u.take(x.len() as int) =~= x);
    assert(u.skip(x.len() as int + 1) =~= Seq::<char>::empty());
    lemma_find_char_none(Seq::<char>::empty(), c);
    assert(split_all(Seq::<char>::empty(), c) == seq![Seq::<char>::empty()]);
    assert(split_all(u, c) == seq![x] + split_all(Seq::<char>::empty(), c));
    assert(seq![x] + seq![Seq::<char>::empty()] =~= seq![x, Seq::<char>::empty()]);
}

/// `x1:hs:hm:ht` split from the right into four, when the last three hold no colon.
pub proof fn lemma_rsplit_four(x1: Seq<char>, hs: Seq<char>, hm: Seq<char>, ht: Seq<char>)
    requires
        no_char(hs, ':'),
        no_char(hm, ':'),
        no_char(ht, ':'),
    ensures
        rsplitn(x1 + seq![':'] + hs + seq![':'] + hm + seq![':'] + ht, 4, ':') == seq![
            ht,
            hm,
            hs,
            x1,
        ],
{
    let col = seq![':'];
    let x2 = x1 + col + hs;
    let x3 = x2 + col + hm;
    let z = x3 + col + ht;
    lemma_last_colon(x3, ht);
    lemma_last_colon(x2, hm);
    lemma_last_colon(x1, hs);
    assert(rsplitn(x1, 1, ':') == seq![x1]);
    assert(rsplitn(x2, 2, ':') == seq![hs] + rsplitn(x1, 1, ':'));
    assert(rsplitn(x2, 2, ':') =~= seq![hs, x1]);
    assert(rsplitn(x3, 3, ':') == seq![hm] + rsplitn(x2, 2, ':'));
    assert(rsplitn(x3, 3, ':') =~= seq![hm, hs, x1]);
    assert(rsplitn(z, 4, ':') == seq![ht] + rsplitn(x3, 3, ':'));
    assert(rsplitn(z, 4, ':') =~= seq![ht, hm, hs, x1]);
}

/// The text of one attachment parses back to it.
pub proof fn lemma_attachment_piece_roundtrip(a: AttachmentModel)
    ensures
        parse_attachment_piece(attachment_body(a)) == Some(as_received(a)),
        attachment_body(a).len() > 0,
{
    let col = seq![':'];
    let hid = hex_repr(a.id as nat);
    let esc = escape_colons(a.name);
    let hs = hex_repr(a.size as nat);
    let hm = hex_repr(a.mtime as nat);
    let ht = hex_repr(a.file_type as nat);
    lemma_repr_chars(a.id as nat, 16);
    lemma_repr_chars(a.size as nat, 16);
    lemma_repr_chars(a.mtime as nat, 16);
    lemma_repr_chars(a.file_type as nat, 16);
    crate::numfmt::lemma_repr_value(a.file_type as nat, 16);
    let x1 = hid + col + esc;
    let x2 = x1 + col + hs;
    let x3 = x2 + col + hm;
    let z = x3 + col + ht;
    let body = attachment_body(a);
    assert(body =~= z.push(':'));
    assert(z.push(':').drop_last() =~= z);
    assert(z.last() == ht.last());
    assert(ht.last() != ':');
    assert(trim_end_char(z, ':') == z);
    assert(trim_end_char(body, ':') == z);
    assert(no_char(ht, ':'));
    assert(no_char(hm, ':'));
    assert(no_char(hs, ':'));
    lemma_rsplit_four(x1, hs, hm, ht);
    let parts = rsplitn(z, 4, ':');
    assert(parts =~= seq![ht, hm, hs, x1]);
    crate::protocol::codec::lemma_first_colon(hid, esc);
    lemma_unescape_escape(a.name);
    lemma_parse_repr(a.id as nat, 16, u32::MAX as nat);
    lemma_parse_repr(a.size as nat, 16, u64::MAX as nat);
    lemma_parse_repr(a.mtime as nat, 16, u64::MAX as nat);
    lemma_parse_repr(a.file_type as nat, 16, u32::MAX as nat);
}

/// The bodies of a list of attachments.
pub open spec fn attachment_bodies(l: Seq<AttachmentModel>) -> Seq<Seq<char>> {
    l.map_values(|a: AttachmentModel| attachment_body(a))
}

pub proof fn lemma_split_attachments_text(l: Seq<AttachmentModel>)
    requires
        forall|i: int| 0 <= i < l.len() ==> no_char(#[trigger] l[i].name, '\x07'),
    ensures
        split_all(attachments_text(l), '\x07') == attachment_bodies(l).push(Seq::<char>::empty()),
    decreases l.len(),
{
    if l.len() == 0 {
        lemma_find_char_none(Seq::<char>::empty(), '\x07');
        assert(attachment_bodies(l).push(Seq::<char>::empty()) =~= seq![Seq::<char>::empty()]);
    } else {
        let a = l.last();
        let l2 = l.drop_last();
        assert forall|i: int| 0 <= i < l2.len() implies no_char(#[trigger] l2[i].name, '\x07') by {
            assert(l2[i] == l[i]);
        }
        lemma_split_attachments_text(l2);
        let body = attachment_body(a);
        assert(no_char(a.name, '\x07'));
        crate::text::lemma_escape_no_char(a.name, '\x07');
        lemma_repr_chars(a.id as nat, 16);
        lemma_repr_chars(a.size as nat, 16);
        lemma_repr_chars(a.mtime as nat, 16);
        lemma_repr_chars(a.file_type as nat, 16);
        assert(no_char(body, '\x07')) by {
            let col = seq![':'];
            let esc = escape_colons(a.name);
            assert forall|j: int| 0 <= j < body.len() implies body[j] != '\x07' by {
                let hid = hex_repr(a.id as nat);
                let hs = hex_repr(a.size as nat);
                let hm = hex_repr(a.mtime as nat);
                let ht = hex_repr(a.file_type as nat);
                let k0 = hid.len() as int;
                let k1 = k0 + 1 + esc.len();
                let k2 = k1 + 1 + hs.len();
                let k3 = k2 + 1 + hm.len();
                let k4 = k3 + 1 + ht.len();
                if j < k0 {
                    assert(body[j] == hid[j]);
                } else if j == k0 {
                } else if j < k1 {
                    assert(body[j] == esc[j - k0 - 1]);
                } else if j == k1 {
                } else if j < k2 {
                    assert(body[j] == hs[j - k1 - 1]);
                } else if j == k2 {
                } else if j < k3 {
                    assert(body[j] == hm[j - k2 - 1]);
                } else if j == k3 {
                } else if j < k4 {
                    assert(body[j] == ht[j - k3 - 1]);
                } else {
                }
            }
        }
        assert(attachment_text(a) =~= body.push('\x07'));
        lemma_split_all_single(body, '\x07');
        let t2 = attachments_text(l2);
        assert(attachments_text(l) == t2 + attachment_text(a));
        if l2.len() == 0 {
            assert(t2 =~= Seq::<char>::empty());
            assert(t2 + attachment_text(a) =~= attachment_text(a));
            assert(attachment_bodies(l).push(Seq::<char>::empty()) =~= seq![
                body,
                Seq::<char>::empty(),
            ]);
        } else {
            assert(t2.len() > 0 && t2.last() == '\x07') by {
                let l3 = l2.drop_last();
                assert(t2 == attachments_text(l3) + attachment_text(l2.last()));
            }
            lemma_split_all_concat(t2, attachment_text(a), '\x07');
            assert(attachment_bodies(l2).push(Seq::<char>::empty()).drop_last() =~= attachment_bodies(
                l2,
            ));
            assert(attachment_bodies(l).push(Seq::<char>::empty()) =~= attachment_bodies(l2) + seq![
                body,
                Seq::<char>::empty(),
            ]);
        }
    }
}

pub proof fn lemma_parse_bodies(l: Seq<AttachmentModel>)
    ensures
        parse_attachment_pieces(attachment_bodies(l)) == l.map_values(
            |a: AttachmentModel| as_received(a),
        ),
    decreases l.len(),
{
    if l.len() == 0 {
        assert(attachment_bodies(l) =~= Seq::<Seq<char>>::empty());
        assert(l.map_values(|a: AttachmentModel| as_received(a)) =~= Seq::<AttachmentModel>::empty());
    } else {
        let l2 = l.drop_last();
        lemma_parse_bodies(l2);
        lemma_attachment_piece_roundtrip(l.last());
        assert(attachment_bodies(l).drop_last() =~= attachment_bodies(l2));
        assert(attachment_bodies(l).last() == attachment_body(l.last()));
        assert(l.map_values(|a: AttachmentModel| as_received(a)) =~= l2.map_values(
            |a: AttachmentModel| as_received(a),
        ).push(as_received(l.last())));
    }
}

/// Reading the text of a list of attachments gives the list back (with
/// pending status), when no name holds a BEL character.
pub proof fn lemma_attachments_roundtrip(l: Seq<AttachmentModel>)
    requires
        forall|i: int| 0 <= i < l.len() ==> no_char(#[trigger] l[i].name, '\x07'),
    ensures
        parse_attachments_text(attachments_text(l)) == l.map_values(
            |a: AttachmentModel| as_received(a),
        ),
{
    lemma_split_attachments_text(l);
    let b = attachment_bodies(l);
    assert(b.push(Seq::<char>::empty()).drop_last() =~= b);
    lemma_parse_bodies(l);
}

} // verus!
