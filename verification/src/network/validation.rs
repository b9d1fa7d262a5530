//! Sanitising of the text fields that peers send.
use vstd::prelude::*;
use crate::text::{chars_of, is_cc, is_control_char, push_char, trim_bounds, trim_ws};

verus! {

/// The most characters a user or host name keeps.
pub const MAX_USERNAME_LEN: usize = 64;

/// The most characters a message keeps.
pub const MAX_MESSAGE_LEN: usize = 65536;

/// The most characters a file name keeps.
pub const MAX_FILE_NAME_LEN: usize = 256;

/// The first `n` characters of `s` (all of them when there are fewer).
pub open spec fn take_at_most(s: Seq<char>, n: nat) -> Seq<char> {
    if s.len() <= n {
        s
    } else {
        s.take(n as int)
    }
}

/// A message keeps every character but the control ones other than
/// newline, carriage return and tab.
pub open spec fn keeps_in_message(c: char) -> bool {
    !is_cc(c) || c == '\n' || c == '\r' || c == '\t'
}

/// A file name loses its path separators.
pub open spec fn keeps_in_filename(c: char) -> bool {
    c != '/' && c != '\\'
}

/// The characters of `s` that a message keeps, in order.
pub open spec fn message_chars(s: Seq<char>) -> Seq<char>
    decreases s.len(),
{
    if s.len() == 0 {
        s
    } else if keeps_in_message(s.last()) {
        message_chars(s.drop_last()).push(s.last())
    } else {
        message_chars(s.drop_last())
    }
}

/// The characters of `s` that a file name keeps, in order.
pub open spec fn filename_chars(s: Seq<char>) -> Seq<char>
    decreases s.len(),
{
    if s.len() == 0 {
        s
    } else if keeps_in_filename(s.last()) {
        filename_chars(s.drop_last()).push(s.last())
    } else {
        filename_chars(s.drop_last())
    }
}

/// A sanitised user or host name: trimmed, then cut to 64 characters.
pub open spec fn sanitized_username(s: Seq<char>) -> Seq<char> {
    take_at_most(trim_ws(s), MAX_USERNAME_LEN as nat)
}

/// A sanitised message: cut to 65536 characters, then stripped of the
/// control characters other than `\n`, `\r`, `\t`.
pub open spec fn sanitized_message(s: Seq<char>) -> Seq<char> {
    message_chars(take_at_most(s, MAX_MESSAGE_LEN as nat))
}

/// A sanitised file name: trimmed, cut to 256 characters, then stripped of
/// `/` and `\`.
pub open spec fn sanitized_filename(s: Seq<char>) -> Seq<char> {
    filename_chars(take_at_most(trim_ws(s), MAX_FILE_NAME_LEN as nat))
}

/// Trims a user or host name and cuts it to 64 characters.
pub fn sanitize_username(raw: &str) -> (res: String)
    ensures
        res@ == sanitized_username(raw@),
{
    let cs = chars_of(raw);
    let (a, b) = trim_bounds(cs.as_slice());
    let ghost t = cs@.subrange(a as int, b as int);
    let end = if b - a > MAX_USERNAME_LEN {
        a + MAX_USERNAME_LEN
    } else {
        b
    };
    let mut out = String::new();
    let mut i = a;
    while i < end
        invariant
            a <= i <= end <= b <= cs@.len(),
            out@ == cs@.subrange(a as int, i as int),
        decreases end - i,
    {
        push_char(&mut out, cs[i]);
        assert(cs@.subrange(a as int, i + 1) =~= cs@.subrange(a as int, i as int).push(cs@[i as int]));
        i = i + 1;
    }
    assert(out@ =~= take_at_most(t, MAX_USERNAME_LEN as nat));
    out
}

/// Cuts a message to 65536 characters and drops the control characters
/// other than newline, carriage return and tab.
pub fn sanitize_message(raw: &str) -> (res: String)
    ensures
        res@ == sanitized_message(raw@),
{
    let cs = chars_of(raw);
    let end = if cs.len() > MAX_MESSAGE_LEN {
        MAX_MESSAGE_LEN
    } else {
        cs.len()
    };
    let mut out = String::new();
    let mut i: usize = 0;
    assert(cs@.take(0) =~= Seq::<char>::empty());
    while i < end
        invariant
            i <= end <= cs@.len(),
            out@ == message_chars(cs@.take(i as int)),
        decreases end - i,
    {
        let c = cs[i];
        assert(cs@.take(i + 1).drop_last() =~= cs@.take(i as int));
        if !is_control_char(c) || c == '\n' || c == '\r' || c == '\t' {
            push_char(&mut out, c);
        }
        i = i + 1;
    }
    assert(cs@.take(end as int) =~= take_at_most(raw@, MAX_MESSAGE_LEN as nat));
    out
}

/// Trims a file name, cuts it to 256 characters and drops `/` and `\`.
pub fn sanitize_filename(raw: &str) -> (res: String)
    ensures
        res@ == sanitized_filename(raw@),
{
    let cs = chars_of(raw);
    let (a, b) = trim_bounds(cs.as_slice());
    let ghost t = cs@.subrange(a as int, b as int);
    let end = if b - a > MAX_FILE_NAME_LEN {
        a + MAX_FILE_NAME_LEN
    } else {
        b
    };
    let mut out = String::new();
    let mut i = a;
    assert(cs@.subrange(a as int, a as int) =~= Seq::<char>::empty());
    while i < end
        invariant
            a <= i <= end <= b <= cs@.len(),
            out@ == filename_chars(cs@.subrange(a as int, i as int)),
        decreases end - i,
    {
        let c = cs[i];
        assert(cs@.subrange(a as int, i + 1).drop_last() =~= cs@.subrange(a as int, i as int));
        if c != '/' && c != '\\' {
            push_char(&mut out, c);
        }
        i = i + 1;
    }
    assert(cs@.subrange(a as int, end as int) =~= take_at_most(t, MAX_FILE_NAME_LEN as nat));
    out
}

} // verus!
