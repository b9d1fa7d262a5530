//! The directory stream of a folder transfer: each entry is a header
//! `SIZE:name:size:attr:` (SIZE in hex counts the header's own bytes, the
//! name has its colons doubled), a regular file's header is followed by
//! its bytes, a directory opens a level and `.` with the return-to-parent
//! attribute closes it.
use vstd::prelude::*;
use vstd::utf8::{decode_utf8, encode_utf8, valid_utf8};
use crate::error::AppError;
use crate::numfmt::{
    dec_repr, hex_repr, lemma_hex_len_bound, lemma_repr_len_mono, lemma_repr_value, parse_uint,
    pow16, push_dec, push_hex,
};
use crate::protocol::transcoder::utf8_decode;
use crate::protocol::{IPMSG_FILE_DIR, IPMSG_FILE_REGULAR, IPMSG_FILE_RETPARENT};
use crate::text::{
    chars_of, escape_colons, escape_colons_exec, push_char, push_chars, push_str, rsplitn,
    rsplitn_exec, string_from_chars, trim_end_char, trim_end_char_len, unescape_colons,
    unescape_colons_exec, views,
};

verus! {

/// The part of an entry header after its size: the name with colons
/// doubled, the size and the attribute in hex, each closed by a colon.
pub open spec fn dir_entry_body(name: Seq<char>, size: u64, attr: u32) -> Seq<char> {
    escape_colons(name) + seq![':'] + hex_repr(size as nat) + seq![':'] + hex_repr(attr as nat) + seq![':']
}

/// Whether a header of `h` bytes fits a body of `b` bytes: `h` counts its
/// own hex digits, the colon after them and the body.
pub open spec fn fits_header(h: nat, b: nat) -> bool {
    h == hex_repr(h).len() + 1 + b
}

/// The header size for a body of `b` bytes: the least size that fits.
pub open spec fn is_header_size(h: nat, b: nat) -> bool {
    fits_header(h, b) && forall|h2: nat| #[trigger] fits_header(h2, b) ==> h <= h2
}

/// The header size written for a body of `b` bytes.
pub open spec fn header_size(b: nat) -> nat {
    choose|h: nat| is_header_size(h, b)
}

/// The bytes of an entry header.
pub open spec fn dir_header_bytes(name: Seq<char>, size: u64, attr: u32) -> Seq<u8> {
    let body = dir_entry_body(name, size, attr);
    encode_utf8(hex_repr(header_size(encode_utf8(body).len())) + seq![':'] + body)
}

/// Once one size fits as the least, it is the header size.
proof fn lemma_header_size_is(h: nat, b: nat)
    requires
        is_header_size(h, b),
    ensures
        header_size(b) == h,
{
    let c = header_size(b);
    assert(is_header_size(c, b));
    assert(c <= h);
    assert(h <= c);
}

/// The number of hex digits of `n`.
fn hex_digit_count(n: usize) -> (res: usize)
    ensures
        res == hex_repr(n as nat).len(),
        1 <= res <= 17,
{
    proof {
        lemma_repr_value(n as nat, 16);
        reveal_with_fuel(pow16, 18);
        lemma_hex_len_bound(n as nat, 17);
    }
    let mut count: usize = 1;
    let mut m = n;
    while m >= 16
        invariant
            1 <= count <= 17,
            count + hex_repr(m as nat).len() == hex_repr(n as nat).len() + 1,
            hex_repr(n as nat).len() <= 17,
        decreases m,
    {
        proof {
            lemma_repr_value((m / 16) as nat, 16);
        }
        assert(hex_repr(m as nat) == hex_repr((m / 16) as nat).push(crate::numfmt::digit_char((m % 16) as nat)));
        m = m / 16;
        count = count + 1;
    }
    count
}

/// The header of one directory stream entry (`format_dir_header`). The
/// header, at most 18 bytes longer than its body, must fit in memory.
pub fn format_dir_header(name: &str, file_size: u64, file_attr: u32) -> (res: Vec<u8>)
    requires
        encode_utf8(dir_entry_body(name@, file_size, file_attr)).len() + 18 <= usize::MAX,
    ensures
        res@ == dir_header_bytes(name@, file_size, file_attr),
        is_header_size(
            header_size(encode_utf8(dir_entry_body(name@, file_size, file_attr)).len()),
            encode_utf8(dir_entry_body(name@, file_size, file_attr)).len(),
        ),
{
    let cs = chars_of(name);
    let esc = escape_colons_exec(cs.as_slice());
    let mut body = String::new();
    push_chars(&mut body, esc.as_slice());
    push_char(&mut body, ':');
    push_hex(&mut body, file_size);
    push_char(&mut body, ':');
    push_hex(&mut body, file_attr as u64);
    push_char(&mut body, ':');
    assert(body@ =~= dir_entry_body(name@, file_size, file_attr));
    proof {
        lemma_repr_value(file_size as nat, 16);
        lemma_repr_value(file_attr as nat, 16);
        reveal_with_fuel(pow16, 18);
        lemma_hex_len_bound(file_size as nat, 17);
        lemma_hex_len_bound(file_attr as nat, 17);
    }
    let b = body.as_str().len();
    assert(b == encode_utf8(body@).len());
    assert(b + 18 <= usize::MAX);
    let ghost bn = b as nat;
    let mut h: usize = b + 2;
    loop
        invariant
            bn == b as nat,
            b + 18 <= usize::MAX,
            b + 2 <= h <= b + 18,
            h <= hex_repr(h as nat).len() + 1 + b,
            forall|h2: nat| #[trigger] fits_header(h2, bn) ==> h <= h2,
        ensures
            fits_header(h as nat, bn),
            forall|h2: nat| #[trigger] fits_header(h2, bn) ==> h <= h2,
        decreases b + 18 - h,
    {
        let hl = hex_digit_count(h);
        if hl + 1 + b == h {
            break;
        }
        let next = hl + 1 + b;
        proof {
            assert forall|h2: nat| #[trigger] fits_header(h2, bn) implies next <= h2 by {
                lemma_repr_len_mono(h as nat, h2, 16);
            }
            lemma_repr_len_mono(h as nat, next as nat, 16);
        }
        h = next;
    }
    proof {
        lemma_header_size_is(h as nat, bn);
    }
    let mut out = String::new();
    push_hex(&mut out, h as u64);
    push_char(&mut out, ':');
    push_str(&mut out, body.as_str());
    assert(out@ =~= hex_repr(h as nat) + seq![':'] + body@);
    let bytes = out.as_str().as_bytes();
    assert(bytes@ == encode_utf8(out@));
    assert(header_size(encode_utf8(body@).len()) == h);
    let v = vstd::slice::slice_to_vec(bytes);
    assert(v@ == bytes@);
    v
}

/// `u32::from_str_radix(s, 16)`: a value exactly when `s` is an optional
/// `+` and hex digits worth at most `u32::MAX`; on failure, the text of the
/// `ParseIntError`, of which nothing is stated.
#[verifier::external_body]
fn std_hex_u32(s: &str) -> (res: Result<u32, String>)
    ensures
        match res {
            Ok(v) => parse_uint(s@, 16, u32::MAX as nat) == Some(v as nat),
            Err(_) => parse_uint(s@, 16, u32::MAX as nat) is None,
        },
{
    u32::from_str_radix(s, 16).map_err(|e| e.to_string())
}

/// `u64::from_str_radix(s, 16)`, as `std_hex_u32` for `u64`.
#[verifier::external_body]
fn std_hex_u64(s: &str) -> (res: Result<u64, String>)
    ensures
        match res {
            Ok(v) => parse_uint(s@, 16, u64::MAX as nat) == Some(v as nat),
            Err(_) => parse_uint(s@, 16, u64::MAX as nat) is None,
        },
{
    u64::from_str_radix(s, 16).map_err(|e| e.to_string())
}

/// `usize::from_str_radix(s, 16)`, as `std_hex_u32` for `usize`.
#[verifier::external_body]
fn std_hex_usize(s: &str) -> (res: Result<usize, String>)
    ensures
        match res {
            Ok(v) => parse_uint(s@, 16, usize::MAX as nat) == Some(v as nat),
            Err(_) => parse_uint(s@, 16, usize::MAX as nat) is None,
        },
{
    usize::from_str_radix(s, 16).map_err(|e| e.to_string())
}

/// The size that the first field of a header holds: its bytes are UTF-8
/// text of a hex number that fits a `usize`.
pub open spec fn header_size_field(bytes: Seq<u8>) -> Option<nat> {
    if valid_utf8(bytes) {
        parse_uint(decode_utf8(bytes), 16, usize::MAX as nat)
    } else {
        None
    }
}

/// Reads the size field of a header: the bytes before its first colon.
pub fn parse_header_size(hex_bytes: &[u8]) -> (res: Result<usize, AppError>)
    ensures
        match header_size_field(hex_bytes@) {
            Some(h) => res matches Ok(v) && v == h,
            None => res matches Err(AppError::Other(m)) && (if valid_utf8(hex_bytes@) {
                exists|detail: Seq<char>|
                    m@ == "Failed to parse header size hex '"@ + decode_utf8(hex_bytes@) + "': "@
                        + detail
            } else {
                exists|detail: Seq<char>| m@ == "Invalid non-UTF-8 header size: "@ + detail
            }),
        },
{
    let text = match utf8_decode(hex_bytes) {
        Ok(t) => t,
        Err(detail) => {
            let mut m = String::new();
            push_str(&mut m, "Invalid non-UTF-8 header size: ");
            push_str(&mut m, detail.as_str());
            assert(m@ == "Invalid non-UTF-8 header size: "@ + detail@);
            return Err(AppError::Other(m));
        },
    };
    match std_hex_usize(text.as_str()) {
        Ok(v) => Ok(v),
        Err(detail) => {
            let mut m = String::new();
            push_str(&mut m, "Failed to parse header size hex '");
            push_str(&mut m, text.as_str());
            push_str(&mut m, "': ");
            push_str(&mut m, detail.as_str());
            assert(m@ == "Failed to parse header size hex '"@ + text@ + "': "@ + detail@);
            Err(AppError::Other(m))
        },
    }
}

/// The length of a header's body: the header size less the size field and
/// its colon.
pub fn header_body_len(header_size: usize, size_field_len: usize) -> (res: usize)
    requires
        header_size >= size_field_len + 1,
    ensures
        res == header_size - (size_field_len + 1),
{
    header_size - (size_field_len + 1)
}

/// One entry of a directory stream.
#[derive(Debug, Clone)]
pub struct DirEntryHeader {
    pub name: String,
    pub size: u64,
    pub attr: u32,
}

/// The entry that a header body stands for: trailing colons dropped, the
/// rest split from the right into three fields, the attribute and the size
/// in hex, the name with doubled colons made single.
pub open spec fn dir_entry_of(body: Seq<char>) -> Option<(Seq<char>, u64, u32)> {
    let parts = rsplitn(trim_end_char(body, ':'), 3, ':');
    if parts.len() != 3 {
        None
    } else {
        match (parse_uint(parts[0], 16, u32::MAX as nat), parse_uint(parts[1], 16, u64::MAX as nat)) {
            (Some(attr), Some(size)) => Some((unescape_colons(parts[2]), size as u64, attr as u32)),
            _ => None,
        }
    }
}

/// Why a header body is refused: not UTF-8; not three fields; an
/// attribute, then a size, that is no hex number of its width. Each message
/// ends in the detail that std gives, except the second, which ends in the
/// body.
pub open spec fn dir_entry_error(bytes: Seq<u8>, m: Seq<char>) -> bool {
    if !valid_utf8(bytes) {
        exists|detail: Seq<char>| m == "Invalid non-UTF-8 header body: "@ + detail
    } else {
        let body = decode_utf8(bytes);
        let parts = rsplitn(trim_end_char(body, ':'), 3, ':');
        if parts.len() != 3 {
            m == "Malformed directory entry header body: "@ + body
        } else if parse_uint(parts[0], 16, u32::MAX as nat) is None {
            exists|detail: Seq<char>| m == "Invalid file_attr hex: "@ + detail
        } else {
            exists|detail: Seq<char>| m == "Invalid file_size hex: "@ + detail
        }
    }
}

/// Reads the body of an entry header.
pub fn parse_dir_entry_body(body_bytes: &[u8]) -> (res: Result<DirEntryHeader, AppError>)
    ensures
        valid_utf8(body_bytes@) && dir_entry_of(decode_utf8(body_bytes@)) is Some ==> (res matches Ok(
            e,
        ) && dir_entry_of(decode_utf8(body_bytes@)) == Some((e.name@, e.size, e.attr))),
        !(valid_utf8(body_bytes@) && dir_entry_of(decode_utf8(body_bytes@)) is Some) ==> (res matches Err(
            AppError::Other(m),
        ) && dir_entry_error(body_bytes@, m@)),
{
    let body = match utf8_decode(body_bytes) {
        Ok(t) => t,
        Err(detail) => {
            let mut m = String::new();
            push_str(&mut m, "Invalid non-UTF-8 header body: ");
            push_str(&mut m, detail.as_str());
            assert(m@ == "Invalid non-UTF-8 header body: "@ + detail@);
            return Err(AppError::Other(m));
        },
    };
    let cs = chars_of(body.as_str());
    let n = trim_end_char_len(cs.as_slice(), ':');
    let trimmed = crate::text::sub_vec(cs.as_slice(), 0, n);
    assert(trimmed@ == cs@.take(n as int));
    let parts = rsplitn_exec(trimmed.as_slice(), 3, ':');
    assert(views(parts@) == rsplitn(trim_end_char(body@, ':'), 3, ':'));
    if parts.len() != 3 {
        let mut m = String::new();
        push_str(&mut m, "Malformed directory entry header body: ");
        push_str(&mut m, body.as_str());
        return Err(AppError::Other(m));
    }
    assert(views(parts@)[0] == parts@[0]@);
    assert(views(parts@)[1] == parts@[1]@);
    assert(views(parts@)[2] == parts@[2]@);
    let attr_text = string_from_chars(parts[0].as_slice());
    let attr = match std_hex_u32(attr_text.as_str()) {
        Ok(v) => v,
        Err(detail) => {
            let mut m = String::new();
            push_str(&mut m, "Invalid file_attr hex: ");
            push_str(&mut m, detail.as_str());
            assert(m@ == "Invalid file_attr hex: "@ + detail@);
            return Err(AppError::Other(m));
        },
    };
    let size_text = string_from_chars(parts[1].as_slice());
    let size = match std_hex_u64(size_text.as_str()) {
        Ok(v) => v,
        Err(detail) => {
            let mut m = String::new();
            push_str(&mut m, "Invalid file_size hex: ");
            push_str(&mut m, detail.as_str());
            assert(m@ == "Invalid file_size hex: "@ + detail@);
            return Err(AppError::Other(m));
        },
    };
    let name = unescape_colons_exec(parts[2].as_slice());
    Ok(DirEntryHeader { name: string_from_chars(name.as_slice()), size, attr })
}

/// How deep the receiver is after an entry with attribute `attr` at depth
/// `d`: a directory goes one level down, a return to the parent one level
/// up unless it is at the top, anything else stays.
pub open spec fn step_depth(d: nat, attr: u32) -> nat {
    if attr == IPMSG_FILE_DIR {
        d + 1
    } else if attr == IPMSG_FILE_RETPARENT && d > 1 {
        (d - 1) as nat
    } else {
        d
    }
}

/// The depth after the entries with attributes `attrs`, from depth `d`.
pub open spec fn run_depth(d: nat, attrs: Seq<u32>) -> nat
    decreases attrs.len(),
{
    if attrs.len() == 0 {
        d
    } else {
        step_depth(run_depth(d, attrs.drop_last()), attrs.last())
    }
}

/// Directories opened minus directories closed in `attrs`.
pub open spec fn nesting(attrs: Seq<u32>) -> int
    decreases attrs.len(),
{
    if attrs.len() == 0 {
        0
    } else {
        nesting(attrs.drop_last()) + if attrs.last() == IPMSG_FILE_DIR {
            1int
        } else if attrs.last() == IPMSG_FILE_RETPARENT {
            -1int
        } else {
            0int
        }
    }
}

/// A well-nested run of entries, as a sender writes for each directory:
/// no entry closes a directory that the run did not open, and each one it
/// opens it closes.
pub open spec fn well_nested(attrs: Seq<u32>) -> bool {
    &&& nesting(attrs) == 0
    &&& forall|i: int| 0 <= i <= attrs.len() ==> nesting(#[trigger] attrs.take(i)) >= 0
}

/// What the receiver of a directory stream does with an entry.
#[derive(Debug, Clone)]
pub enum DirAction {
    /// Enter the directory: the save directory itself when
    /// `reuse_save_dir`, else a new one of this name in the current
    /// directory.
    EnterDir { name: String, reuse_save_dir: bool },
    /// Write the next `size` bytes of the stream to this file of the
    /// current directory.
    WriteFile { name: String, size: u64 },
    /// Go back to the parent directory.
    LeaveDir,
    /// The transfer is complete.
    Finish,
}

/// The receiving side of a directory stream: how deep it is in the tree
/// (the save directory itself is level 1).
pub struct DirDownload {
    depth: usize,
}

impl View for DirDownload {
    type V = nat;

    closed spec fn view(&self) -> nat {
        self.depth as nat
    }
}

impl DirDownload {
    /// The receiver before the first entry: in the save directory.
    pub fn new() -> (res: DirDownload)
        ensures
            res@ == 1,
    {
        DirDownload { depth: 1 }
    }

    /// How deep the receiver is.
    pub fn depth(&self) -> (res: usize)
        ensures
            res == self@,
    {
        self.depth
    }

    /// Takes one entry: a directory is entered, a regular file is written,
    /// a return to the parent leaves a level or, at the top, ends the
    /// transfer; any other attribute is an error. A directory entered from
    /// the top level whose name the save directory's path ends with
    /// (`save_dir_ends_with_name`) is the save directory itself.
    pub fn on_entry(&mut self, entry: DirEntryHeader, save_dir_ends_with_name: bool) -> (res: Result<
        DirAction,
        AppError,
    >)
        requires
            old(self)@ < usize::MAX,
        ensures
            final(self)@ == step_depth(old(self)@, entry.attr),
            entry.attr == IPMSG_FILE_DIR ==> (res matches Ok(DirAction::EnterDir { name, reuse_save_dir })
                && name@ == entry.name@ && reuse_save_dir == (old(self)@ == 1 && save_dir_ends_with_name)
                && final(self)@ == old(self)@ + 1),
            entry.attr == IPMSG_FILE_REGULAR ==> (res matches Ok(DirAction::WriteFile { name, size })
                && name@ == entry.name@ && size == entry.size && final(self)@ == old(self)@),
            entry.attr == IPMSG_FILE_RETPARENT && old(self)@ > 1 ==> (res matches Ok(
                DirAction::LeaveDir,
            ) && final(self)@ == old(self)@ - 1),
            entry.attr == IPMSG_FILE_RETPARENT && old(self)@ <= 1 ==> (res matches Ok(
                DirAction::Finish,
            ) && final(self)@ == old(self)@),
            entry.attr != IPMSG_FILE_DIR && entry.attr != IPMSG_FILE_REGULAR && entry.attr
                != IPMSG_FILE_RETPARENT ==> (res matches Err(AppError::Other(m)) && m@
                == "Unknown directory stream file_attr: "@ + dec_repr(entry.attr as nat)
                && final(self)@ == old(self)@),
    {
        if entry.attr == IPMSG_FILE_DIR {
            let reuse_save_dir = self.depth == 1 && save_dir_ends_with_name;
            self.depth = self.depth + 1;
            Ok(DirAction::EnterDir { name: entry.name, reuse_save_dir })
        } else if entry.attr == IPMSG_FILE_REGULAR {
            Ok(DirAction::WriteFile { name: entry.name, size: entry.size })
        } else if entry.attr == IPMSG_FILE_RETPARENT {
            if self.depth > 1 {
                self.depth = self.depth - 1;
                Ok(DirAction::LeaveDir)
            } else {
                Ok(DirAction::Finish)
            }
        } else {
            let mut m = String::new();
            push_str(&mut m, "Unknown directory stream file_attr: ");
            push_dec(&mut m, entry.attr as u64);
            Err(AppError::Other(m))
        }
    }

    /// The stream ended before a header: fine at the top level, an error
    /// inside a directory.
    pub fn on_eof(&self) -> (res: Result<(), AppError>)
        ensures
            self@ <= 1 ==> res is Ok,
            self@ > 1 ==> (res matches Err(AppError::Other(m)) && m@
                == "Unexpected EOF in directory download stream"@),
    {
        if self.depth <= 1 {
            Ok(())
        } else {
            Err(AppError::Other(String::from_str("Unexpected EOF in directory download stream")))
        }
    }
}


/// The least header size for a body exists; the search from `h` upwards
/// reaches it.
proof fn lemma_header_search(h: nat, b: nat)
    requires
        b + 2 <= h <= b + 18,
        b + 18 < pow16(17),
        h <= hex_repr(h).len() + 1 + b,
        forall|h2: nat| #[trigger] fits_header(h2, b) ==> h <= h2,
    ensures
        is_header_size(header_size(b), b),
        header_size(b) <= b + 18,
    decreases b + 18 - h,
{
    lemma_repr_value(h, 16);
    lemma_hex_len_bound(h, 17);
    if fits_header(h, b) {
        assert(is_header_size(h, b));
        lemma_header_size_is(h, b);
    } else {
        let next = hex_repr(h).len() + 1 + b;
        assert forall|h2: nat| #[trigger] fits_header(h2, b) implies next <= h2 by {
            lemma_repr_len_mono(h, h2, 16);
        }
        lemma_repr_len_mono(h, next, 16);
        lemma_header_search(next, b);
    }
}

/// Every body has a header size, which fits it.
pub proof fn lemma_header_size_exists(b: nat)
    requires
        b + 18 < pow16(17),
    ensures
        is_header_size(header_size(b), b),
        fits_header(header_size(b), b),
        header_size(b) <= b + 18,
{
    lemma_repr_value(b + 2, 16);
    lemma_header_search(b + 2, b);
}

/// The UTF-8 bytes of two texts one after the other.
pub proof fn lemma_utf8_concat(a: Seq<char>, c: Seq<char>)
    ensures
        encode_utf8(a + c) == encode_utf8(a) + encode_utf8(c),
    decreases a.len(),
{
    if a.len() > 0 {
        assert((a + c).drop_first() =~= a.drop_first() + c);
        lemma_utf8_concat(a.drop_first(), c);
        assert((a + c)[0] == a[0]);
    } else {
        assert(a + c =~= c);
    }
}

/// A body written by the sender reads back as the entry it describes.
pub proof fn lemma_dir_entry_roundtrip(name: Seq<char>, size: u64, attr: u32)
    ensures
        dir_entry_of(dir_entry_body(name, size, attr)) == Some((name, size, attr)),
{
    let col = seq![':'];
    let esc = escape_colons(name);
    let hs = hex_repr(size as nat);
    let ha = hex_repr(attr as nat);
    crate::numfmt::lemma_repr_chars(size as nat, 16);
    crate::numfmt::lemma_repr_chars(attr as nat, 16);
    lemma_repr_value(attr as nat, 16);
    let z = esc + col + hs + col + ha;
    let body = dir_entry_body(name, size, attr);
    assert(body =~= z.push(':'));
    assert(z.push(':').drop_last() =~= z);
    assert(z.last() == ha.last());
    assert(trim_end_char(z, ':') == z);
    assert(trim_end_char(body, ':') == z);
    assert(crate::protocol::codec::no_char(ha, ':'));
    assert(crate::protocol::codec::no_char(hs, ':'));
    let x = esc + col + hs;
    crate::protocol::codec::lemma_last_colon(x, ha);
    crate::protocol::codec::lemma_last_colon(esc, hs);
    assert(rsplitn(esc, 1, ':') == seq![esc]);
    assert(rsplitn(x, 2, ':') == seq![hs] + rsplitn(esc, 1, ':'));
    assert(rsplitn(z, 3, ':') == seq![ha] + rsplitn(x, 2, ':'));
    assert(rsplitn(z, 3, ':') =~= seq![ha, hs, esc]);
    crate::text::lemma_unescape_escape(name);
    crate::numfmt::lemma_parse_repr(size as nat, 16, u64::MAX as nat);
    crate::numfmt::lemma_parse_repr(attr as nat, 16, u32::MAX as nat);
}

/// What the receiver reads of a header that the sender wrote: the bytes
/// before the first colon give the size of the whole header, and the
/// bytes after it are the body, which gives the entry back.
pub proof fn lemma_dir_header_roundtrip(name: Seq<char>, size: u64, attr: u32)
    requires
        encode_utf8(dir_entry_body(name, size, attr)).len() + 18 <= usize::MAX,
    ensures
        ({
            let bytes = dir_header_bytes(name, size, attr);
            let k = hex_repr(header_size(encode_utf8(dir_entry_body(name, size, attr)).len())).len();
            &&& k < bytes.len()
            &&& bytes[k as int] == 0x3Au8
            &&& forall|i: int| 0 <= i < k ==> bytes[i] != 0x3Au8
            &&& header_size_field(bytes.take(k as int)) == Some(bytes.len())
            &&& valid_utf8(bytes.skip(k as int + 1))
            &&& dir_entry_of(decode_utf8(bytes.skip(k as int + 1))) == Some((name, size, attr))
        }),
{
    let body = dir_entry_body(name, size, attr);
    let eb = encode_utf8(body);
    let b = eb.len();
    assert(b + 18 < pow16(17)) by {
        reveal_with_fuel(pow16, 18);
    }
    lemma_header_size_exists(b);
    let h = header_size(b);
    let hx = hex_repr(h);
    lemma_repr_value(h, 16);
    crate::numfmt::lemma_repr_chars(h, 16);
    assert(vstd::utf8::is_ascii_chars(hx));
    vstd::utf8::is_ascii_chars_encode_utf8(hx);
    let ehx = encode_utf8(hx);
    assert(vstd::utf8::is_ascii_chars(seq![':']));
    vstd::utf8::is_ascii_chars_encode_utf8(seq![':']);
    lemma_utf8_concat(hx + seq![':'], body);
    lemma_utf8_concat(hx, seq![':']);
    let bytes = dir_header_bytes(name, size, attr);
    assert(bytes == ehx + encode_utf8(seq![':']) + eb);
    let k = hx.len();
    assert(ehx.len() == k);
    assert(bytes[k as int] == 0x3Au8);
    assert forall|i: int| 0 <= i < k implies bytes[i] != 0x3Au8 by {
        assert(bytes[i] == ehx[i]);
        assert(hx[i] as u8 == ehx[i]);
        assert(hx[i] != ':');
    }
    assert(bytes.take(k as int) =~= ehx);
    assert(bytes.skip(k as int + 1) =~= eb);
    vstd::utf8::encode_utf8_valid_utf8(hx);
    vstd::utf8::encode_utf8_decode_utf8(hx);
    vstd::utf8::encode_utf8_valid_utf8(body);
    vstd::utf8::encode_utf8_decode_utf8(body);
    assert(bytes.len() == h);
    crate::numfmt::lemma_parse_repr(h, 16, usize::MAX as nat);
    lemma_dir_entry_roundtrip(name, size, attr);
}


/// From a depth `d` in the tree, the entries of `attrs` taken in turn
/// keep the receiver at `d` plus the directories still open.
proof fn lemma_run_depth_nesting(d: nat, attrs: Seq<u32>)
    requires
        d >= 1,
        forall|i: int| 0 <= i <= attrs.len() ==> nesting(#[trigger] attrs.take(i)) >= 0,
    ensures
        run_depth(d, attrs) == d + nesting(attrs),
    decreases attrs.len(),
{
    if attrs.len() > 0 {
        let init = attrs.drop_last();
        assert forall|i: int| 0 <= i <= init.len() implies nesting(#[trigger] init.take(i)) >= 0 by {
            assert(init.take(i) =~= attrs.take(i));
        }
        assert(attrs.take(attrs.len() as int) =~= attrs);
        lemma_run_depth_nesting(d, init);
    }
}

/// A well-nested directory stream received from any depth ends at that
/// depth, and none of its returns to a parent is taken for the end of the
/// transfer; so a stream that a sender writes for one directory, received
/// from the save directory, leaves the receiver where an end of stream is
/// accepted.
pub proof fn lemma_well_nested_stream(d: nat, attrs: Seq<u32>)
    requires
        d >= 1,
        well_nested(attrs),
    ensures
        run_depth(d, attrs) == d,
        forall|i: int|
            0 <= i < attrs.len() && attrs[i] == IPMSG_FILE_RETPARENT ==> run_depth(
                d,
                #[trigger] attrs.take(i),
            ) > 1,
{
    lemma_run_depth_nesting(d, attrs);
    assert forall|i: int|
        0 <= i < attrs.len() && attrs[i] == IPMSG_FILE_RETPARENT implies run_depth(
        d,
        #[trigger] attrs.take(i),
    ) > 1 by {
        let pre = attrs.take(i);
        let next = attrs.take(i + 1);
        assert(next.drop_last() =~= pre);
        assert(next.last() == attrs[i]);
        assert(nesting(next) >= 0);
        assert forall|j: int| 0 <= j <= pre.len() implies nesting(#[trigger] pre.take(j)) >= 0 by {
            assert(pre.take(j) =~= attrs.take(j));
        }
        lemma_run_depth_nesting(d, pre);
    }
}

} // verus!
