//! Character-level helpers shared by the protocol code: conversion between
//! `str`/`String` and character vectors, searching and splitting on a
//! separator, trimming, and the colon escaping of IPMsg names.
use vstd::prelude::*;
use vstd::std_specs::iter::IteratorSpec;
use vstd::slice::{slice_subrange, slice_to_vec};

verus! {

broadcast use vstd::string::group_string_axioms;

// ---------------------------------------------------------------------------
// Specifications
// ---------------------------------------------------------------------------

/// The index of the first `c` in `s`, as `str::find` reports it (in characters).
pub open spec fn find_char(s: Seq<char>, c: char) -> Option<int>
    decreases s.len(),
{
    if s.len() == 0 {
        None
    } else if s[0] == c {
        Some(0)
    } else {
        match find_char(s.skip(1), c) {
            Some(i) => Some(i + 1),
            None => None,
        }
    }
}

/// The index of the last `c` in `s`, as `str::rfind` reports it (in characters).
pub open spec fn rfind_char(s: Seq<char>, c: char) -> Option<int>
    decreases s.len(),
{
    if s.len() == 0 {
        None
    } else if s.last() == c {
        Some(s.len() - 1)
    } else {
        rfind_char(s.drop_last(), c)
    }
}

/// The pieces of `s.split(c)`.
pub open spec fn split_all(s: Seq<char>, c: char) -> Seq<Seq<char>>
    decreases s.len(),
{
    match find_char(s, c) {
        None => seq![s],
        Some(i) => if 0 <= i < s.len() {
            seq![s.take(i)] + split_all(s.skip(i + 1), c)
        } else {
            seq![s]
        },
    }
}

/// The pieces of `s.splitn(n, c)`, for `n >= 1`.
pub open spec fn splitn(s: Seq<char>, n: nat, c: char) -> Seq<Seq<char>>
    decreases n,
{
    if n <= 1 {
        seq![s]
    } else {
        match find_char(s, c) {
            None => seq![s],
            Some(i) => if 0 <= i < s.len() {
                seq![s.take(i)] + splitn(s.skip(i + 1), (n - 1) as nat, c)
            } else {
                seq![s]
            },
        }
    }
}

/// The pieces of `s.rsplitn(n, c)`, for `n >= 1` (last piece first).
pub open spec fn rsplitn(s: Seq<char>, n: nat, c: char) -> Seq<Seq<char>>
    decreases n,
{
    if n <= 1 {
        seq![s]
    } else {
        match rfind_char(s, c) {
            None => seq![s],
            Some(i) => if 0 <= i < s.len() {
                seq![s.skip(i + 1)] + rsplitn(s.take(i), (n - 1) as nat, c)
            } else {
                seq![s]
            },
        }
    }
}

/// `s.trim_end_matches(c)`.
pub open spec fn trim_end_char(s: Seq<char>, c: char) -> Seq<char>
    decreases s.len(),
{
    if s.len() > 0 && s.last() == c {
        trim_end_char(s.drop_last(), c)
    } else {
        s
    }
}

/// `char::is_whitespace`: the Unicode `White_Space` property.
pub open spec fn is_ws(c: char) -> bool {
    let u = c as u32;
    (0x09 <= u <= 0x0D) || u == 0x20 || u == 0x85 || u == 0xA0 || u == 0x1680 || (0x2000 <= u
        <= 0x200A) || u == 0x2028 || u == 0x2029 || u == 0x202F || u == 0x205F || u == 0x3000
}

/// `char::is_control`: the Unicode general category `Cc`.
pub open spec fn is_cc(c: char) -> bool {
    let u = c as u32;
    u <= 0x1F || (0x7F <= u <= 0x9F)
}

/// `str::trim_start`.
pub open spec fn trim_start_ws(s: Seq<char>) -> Seq<char>
    decreases s.len(),
{
    if s.len() > 0 && is_ws(s[0]) {
        trim_start_ws(s.skip(1))
    } else {
        s
    }
}

/// `str::trim_end`.
pub open spec fn trim_end_ws(s: Seq<char>) -> Seq<char>
    decreases s.len(),
{
    if s.len() > 0 && is_ws(s.last()) {
        trim_end_ws(s.drop_last())
    } else {
        s
    }
}

/// `str::trim`.
pub open spec fn trim_ws(s: Seq<char>) -> Seq<char> {
    trim_end_ws(trim_start_ws(s))
}

/// `name.replace(':', "::")`: every colon doubled.
pub open spec fn escape_colons(s: Seq<char>) -> Seq<char>
    decreases s.len(),
{
    if s.len() == 0 {
        s
    } else if s[0] == ':' {
        seq![':', ':'] + escape_colons(s.skip(1))
    } else {
        seq![s[0]] + escape_colons(s.skip(1))
    }
}

/// `name.replace("::", ":")`: each pair of colons, matched from the left, made one.
pub open spec fn unescape_colons(s: Seq<char>) -> Seq<char>
    decreases s.len(),
{
    if s.len() < 2 {
        s
    } else if s[0] == ':' && s[1] == ':' {
        seq![':'] + unescape_colons(s.skip(2))
    } else {
        seq![s[0]] + unescape_colons(s.skip(1))
    }
}

/// The character sequences of a list of character vectors.
pub open spec fn views(v: Seq<Vec<char>>) -> Seq<Seq<char>> {
    v.map_values(|x: Vec<char>| x@)
}

// ---------------------------------------------------------------------------
// Lemmas
// ---------------------------------------------------------------------------

/// `find_char` is the first occurrence.
pub proof fn lemma_find_char(s: Seq<char>, c: char)
    ensures
        match find_char(s, c) {
            Some(i) => 0 <= i < s.len() && s[i] == c && forall|j: int| 0 <= j < i ==> s[j] != c,
            None => forall|j: int| 0 <= j < s.len() ==> s[j] != c,
        },
    decreases s.len(),
{
    if s.len() > 0 && s[0] != c {
        lemma_find_char(s.skip(1), c);
        match find_char(s.skip(1), c) {
            Some(i) => {
                assert forall|j: int| 0 <= j < i + 1 implies s[j] != c by {
                    if j > 0 {
                        assert(s[j] == s.skip(1)[j - 1]);
                    }
                }
            },
            None => {
                assert forall|j: int| 0 <= j < s.len() implies s[j] != c by {
                    if j > 0 {
                        assert(s[j] == s.skip(1)[j - 1]);
                    }
                }
            },
        }
    }
}

/// The first occurrence is `find_char`.
pub proof fn lemma_find_char_at(s: Seq<char>, c: char, i: int)
    requires
        0 <= i < s.len(),
        s[i] == c,
        forall|j: int| 0 <= j < i ==> s[j] != c,
    ensures
        find_char(s, c) == Some(i),
{
    lemma_find_char(s, c);
}

pub proof fn lemma_find_char_none(s: Seq<char>, c: char)
    requires
        forall|j: int| 0 <= j < s.len() ==> s[j] != c,
    ensures
        find_char(s, c) is None,
{
    lemma_find_char(s, c);
}

/// `rfind_char` is the last occurrence.
pub proof fn lemma_rfind_char(s: Seq<char>, c: char)
    ensures
        match rfind_char(s, c) {
            Some(i) => 0 <= i < s.len() && s[i] == c && forall|j: int|
                i < j < s.len() ==> s[j] != c,
            None => forall|j: int| 0 <= j < s.len() ==> s[j] != c,
        },
    decreases s.len(),
{
    if s.len() > 0 && s.last() != c {
        let d = s.drop_last();
        lemma_rfind_char(d, c);
        match rfind_char(d, c) {
            Some(i) => {
                assert forall|j: int| i < j < s.len() implies s[j] != c by {
                    if j < d.len() {
                        assert(s[j] == d[j]);
                    }
                }
            },
            None => {
                assert forall|j: int| 0 <= j < s.len() implies s[j] != c by {
                    if j < d.len() {
                        assert(s[j] == d[j]);
                    }
                }
            },
        }
    }
}

pub proof fn lemma_rfind_char_at(s: Seq<char>, c: char, i: int)
    requires
        0 <= i < s.len(),
        s[i] == c,
        forall|j: int| i < j < s.len() ==> s[j] != c,
    ensures
        rfind_char(s, c) == Some(i),
{
    lemma_rfind_char(s, c);
}

pub proof fn lemma_rfind_char_none(s: Seq<char>, c: char)
    requires
        forall|j: int| 0 <= j < s.len() ==> s[j] != c,
    ensures
        rfind_char(s, c) is None,
{
    lemma_rfind_char(s, c);
}

/// Escaping a concatenation escapes each part.
pub proof fn lemma_escape_concat(a: Seq<char>, b: Seq<char>)
    ensures
        escape_colons(a + b) == escape_colons(a) + escape_colons(b),
    decreases a.len(),
{
    if a.len() == 0 {
        assert(a + b =~= b);
    } else {
        assert((a + b).skip(1) =~= a.skip(1) + b);
        lemma_escape_concat(a.skip(1), b);
        if a[0] == ':' {
            assert(escape_colons(a + b) =~= seq![':', ':'] + (escape_colons(a.skip(1))
                + escape_colons(b)));
        } else {
            assert(escape_colons(a + b) =~= seq![a[0]] + (escape_colons(a.skip(1))
                + escape_colons(b)));
        }
    }
}

/// Undoing the escape gives the name back.
pub proof fn lemma_unescape_escape(s: Seq<char>)
    ensures
        unescape_colons(escape_colons(s)) == s,
    decreases s.len(),
{
    if s.len() == 0 {
    } else {
        lemma_unescape_escape(s.skip(1));
        let e = escape_colons(s);
        let rest = escape_colons(s.skip(1));
        if s[0] == ':' {
            assert(e.skip(2) =~= rest);
            assert(seq![':'] + s.skip(1) =~= s);
        } else {
            assert(e.skip(1) =~= rest);
            assert(seq![s[0]] + s.skip(1) =~= s);
            if e.len() >= 2 {
                assert(e[0] == s[0]);
            } else {
                assert(rest.len() == 0);
                assert(unescape_colons(rest) == rest);
                assert(s.skip(1).len() == 0);
                assert(e =~= s);
            }
        }
    }
}

/// Escaping only adds colons: a character other than `:` occurs in the
/// escaped name exactly where it occurs in the name.
pub proof fn lemma_escape_no_char(s: Seq<char>, c: char)
    requires
        c != ':',
        forall|j: int| 0 <= j < s.len() ==> s[j] != c,
    ensures
        forall|j: int| 0 <= j < escape_colons(s).len() ==> escape_colons(s)[j] != c,
    decreases s.len(),
{
    if s.len() > 0 {
        assert forall|j: int| 0 <= j < s.skip(1).len() implies s.skip(1)[j] != c by {
            assert(s.skip(1)[j] == s[j + 1]);
        }
        lemma_escape_no_char(s.skip(1), c);
        let e = escape_colons(s);
        let rest = escape_colons(s.skip(1));
        let head: Seq<char> = if s[0] == ':' { seq![':', ':'] } else { seq![s[0]] };
        assert(e == head + rest);
        assert forall|j: int| 0 <= j < e.len() implies e[j] != c by {
            if j < head.len() {
                assert(e[j] == head[j]);
            } else {
                assert(e[j] == rest[j - head.len()]);
            }
        }
    }
}

// ---------------------------------------------------------------------------
// Executable helpers
// ---------------------------------------------------------------------------

/// `String::push` appends one character.
#[verifier::external_body]
pub(crate) fn push_char(s: &mut String, c: char)
    ensures
        final(s)@ == old(s)@.push(c),
{
    s.push(c);
}

/// The characters of a string slice, in order.
pub fn chars_of(s: &str) -> (res: Vec<char>)
    ensures
        res@ == s@,
{
    let mut res: Vec<char> = Vec::new();
    for c in it: s.chars()
        invariant
            res@ == it.seq().take(it.index() as int),
            it.seq() == s@,
    {
        res.push(c);
    }
    res
}

/// Appends the characters `cs` to `out`.
pub fn push_chars(out: &mut String, cs: &[char])
    ensures
        final(out)@ == old(out)@ + cs@,
{
    let mut i: usize = 0;
    while i < cs.len()
        invariant
            i <= cs@.len(),
            out@ == old(out)@ + cs@.take(i as int),
        decreases cs@.len() - i,
    {
        push_char(out, cs[i]);
        assert(cs@.take(i + 1) =~= cs@.take(i as int).push(cs@[i as int]));
        i = i + 1;
    }
    assert(cs@.take(cs@.len() as int) =~= cs@);
}

/// The string made of the characters `cs`.
pub fn string_from_chars(cs: &[char]) -> (res: String)
    ensures
        res@ == cs@,
{
    let mut out = String::new();
    push_chars(&mut out, cs);
    assert(Seq::<char>::empty() + cs@ =~= cs@);
    out
}

/// Appends a string slice to `out`.
pub fn push_str(out: &mut String, s: &str)
    ensures
        final(out)@ == old(out)@ + s@,
{
    let cs = chars_of(s);
    push_chars(out, cs.as_slice());
}

/// A copy of `s[i..j]`.
pub fn sub_vec(s: &[char], i: usize, j: usize) -> (res: Vec<char>)
    requires
        i <= j <= s@.len(),
    ensures
        res@ == s@.subrange(i as int, j as int),
{
    slice_to_vec(slice_subrange(s, i, j))
}

/// `find_char` on a slice.
pub fn find_char_exec(s: &[char], c: char) -> (res: Option<usize>)
    ensures
        match res {
            Some(i) => find_char(s@, c) == Some(i as int),
            None => find_char(s@, c) is None,
        },
{
    let mut i: usize = 0;
    while i < s.len()
        invariant
            i <= s@.len(),
            forall|j: int| 0 <= j < i ==> s@[j] != c,
        decreases s@.len() - i,
    {
        if s[i] == c {
            proof {
                lemma_find_char_at(s@, c, i as int);
            }
            return Some(i);
        }
        i = i + 1;
    }
    proof {
        lemma_find_char_none(s@, c);
    }
    None
}

/// `rfind_char` on a slice.
pub fn rfind_char_exec(s: &[char], c: char) -> (res: Option<usize>)
    ensures
        match res {
            Some(i) => rfind_char(s@, c) == Some(i as int),
            None => rfind_char(s@, c) is None,
        },
{
    let mut i: usize = s.len();
    while i > 0
        invariant
            i <= s@.len(),
            forall|j: int| i <= j < s@.len() ==> s@[j] != c,
        decreases i,
    {
        if s[i - 1] == c {
            proof {
                lemma_rfind_char_at(s@, c, i - 1);
            }
            return Some(i - 1);
        }
        i = i - 1;
    }
    proof {
        lemma_rfind_char_none(s@, c);
    }
    None
}

/// Whether `c` occurs in `s`.
pub fn contains_char(s: &[char], c: char) -> (res: bool)
    ensures
        res == s@.contains(c),
        res == (find_char(s@, c) is Some),
{
    proof {
        lemma_find_char(s@, c);
    }
    match find_char_exec(s, c) {
        Some(i) => {
            assert(s@[i as int] == c);
            true
        },
        None => false,
    }
}

/// `s.splitn(n, c)` on a slice.
pub fn splitn_exec(s: &[char], n: usize, c: char) -> (res: Vec<Vec<char>>)
    ensures
        views(res@) == splitn(s@, n as nat, c),
    decreases n,
{
    if n <= 1 {
        let mut res: Vec<Vec<char>> = Vec::new();
        res.push(slice_to_vec(s));
        assert(views(res@) =~= seq![s@]);
        return res;
    }
    match find_char_exec(s, c) {
        None => {
            let mut res: Vec<Vec<char>> = Vec::new();
            res.push(slice_to_vec(s));
            assert(views(res@) =~= seq![s@]);
            res
        },
        Some(i) => {
            proof {
                lemma_find_char(s@, c);
            }
            let len = s.len();
            assert(i < len);
            let head = sub_vec(s, 0, i);
            let tail = slice_subrange(s, i + 1, len);
            let rest = splitn_exec(tail, n - 1, c);
            let mut rest = rest;
            let mut res: Vec<Vec<char>> = Vec::new();
            res.push(head);
            let ghost r0 = rest@;
            res.append(&mut rest);
            assert(views(res@) =~= seq![s@.take(i as int)] + views(r0));
            assert(s@.skip(i + 1) =~= tail@);
            res
        },
    }
}

/// `s.rsplitn(n, c)` on a slice.
pub fn rsplitn_exec(s: &[char], n: usize, c: char) -> (res: Vec<Vec<char>>)
    ensures
        views(res@) == rsplitn(s@, n as nat, c),
    decreases n,
{
    if n <= 1 {
        let mut res: Vec<Vec<char>> = Vec::new();
        res.push(slice_to_vec(s));
        assert(views(res@) =~= seq![s@]);
        return res;
    }
    match rfind_char_exec(s, c) {
        None => {
            let mut res: Vec<Vec<char>> = Vec::new();
            res.push(slice_to_vec(s));
            assert(views(res@) =~= seq![s@]);
            res
        },
        Some(i) => {
            proof {
                lemma_rfind_char(s@, c);
            }
            let len = s.len();
            assert(i < len);
            let last = sub_vec(s, i + 1, len);
            let front = slice_subrange(s, 0, i);
            let rest = rsplitn_exec(front, n - 1, c);
            let mut rest = rest;
            let mut res: Vec<Vec<char>> = Vec::new();
            res.push(last);
            let ghost r0 = rest@;
            res.append(&mut rest);
            assert(views(res@) =~= seq![s@.skip(i + 1)] + views(r0));
            assert(s@.take(i as int) =~= front@);
            res
        },
    }
}

/// `s.split(c)` on a slice.
pub fn split_all_exec(s: &[char], c: char) -> (res: Vec<Vec<char>>)
    ensures
        views(res@) == split_all(s@, c),
    decreases s@.len(),
{
    match find_char_exec(s, c) {
        None => {
            let mut res: Vec<Vec<char>> = Vec::new();
            res.push(slice_to_vec(s));
            assert(views(res@) =~= seq![s@]);
            res
        },
        Some(i) => {
            proof {
                lemma_find_char(s@, c);
            }
            let len = s.len();
            assert(i < len);
            let head = sub_vec(s, 0, i);
            let tail = slice_subrange(s, i + 1, len);
            let rest = split_all_exec(tail, c);
            let mut rest = rest;
            let mut res: Vec<Vec<char>> = Vec::new();
            res.push(head);
            let ghost r0 = rest@;
            res.append(&mut rest);
            assert(views(res@) =~= seq![s@.take(i as int)] + views(r0));
            assert(s@.skip(i + 1) =~= tail@);
            res
        },
    }
}

/// The length of `s.trim_end_matches(c)`.
pub fn trim_end_char_len(s: &[char], c: char) -> (res: usize)
    ensures
        res <= s@.len(),
        s@.take(res as int) == trim_end_char(s@, c),
{
    let mut n: usize = s.len();
    assert(s@.take(n as int) =~= s@);
    while n > 0 && s[n - 1] == c
        invariant
            n <= s@.len(),
            trim_end_char(s@.take(n as int), c) == trim_end_char(s@, c),
        decreases n,
    {
        assert(s@.take(n as int).drop_last() =~= s@.take(n - 1));
        n = n - 1;
    }
    n
}

/// Whether `c` is whitespace in the sense of `char::is_whitespace`.
pub fn is_whitespace_char(c: char) -> (res: bool)
    ensures
        res == is_ws(c),
{
    let u = c as u32;
    (0x09 <= u && u <= 0x0D) || u == 0x20 || u == 0x85 || u == 0xA0 || u == 0x1680 || (0x2000 <= u
        && u <= 0x200A) || u == 0x2028 || u == 0x2029 || u == 0x202F || u == 0x205F || u == 0x3000
}

/// Whether `c` is a control character in the sense of `char::is_control`.
pub fn is_control_char(c: char) -> (res: bool)
    ensures
        res == is_cc(c),
{
    let u = c as u32;
    u <= 0x1F || (0x7F <= u && u <= 0x9F)
}

/// The bounds of `s.trim()`.
pub fn trim_bounds(s: &[char]) -> (res: (usize, usize))
    ensures
        res.0 <= res.1 <= s@.len(),
        s@.subrange(res.0 as int, res.1 as int) == trim_ws(s@),
{
    let mut a: usize = 0;
    assert(s@.skip(0) =~= s@);
    while a < s.len() && is_whitespace_char(s[a])
        invariant
            a <= s@.len(),
            trim_start_ws(s@.skip(a as int)) == trim_start_ws(s@),
        decreases s@.len() - a,
    {
        assert(s@.skip(a as int).skip(1) =~= s@.skip(a + 1));
        a = a + 1;
    }
    let ghost t = s@.skip(a as int);
    assert(trim_start_ws(t) == t);
    let mut b: usize = s.len();
    assert(t.take(b - a) =~= t);
    while b > a && is_whitespace_char(s[b - 1])
        invariant
            a <= b <= s@.len(),
            t == s@.skip(a as int),
            trim_end_ws(t.take(b - a)) == trim_end_ws(t),
        decreases b,
    {
        assert(t.take(b - a).drop_last() =~= t.take(b - 1 - a));
        b = b - 1;
    }
    assert(t.take(b - a) =~= s@.subrange(a as int, b as int));
    (a, b)
}

/// `name.replace(':', "::")`.
pub fn escape_colons_exec(s: &[char]) -> (res: Vec<char>)
    ensures
        res@ == escape_colons(s@),
{
    let mut out: Vec<char> = Vec::new();
    let mut i: usize = 0;
    assert(s@.take(0) =~= Seq::<char>::empty());
    while i < s.len()
        invariant
            i <= s@.len(),
            out@ == escape_colons(s@.take(i as int)),
        decreases s@.len() - i,
    {
        let c = s[i];
        proof {
            lemma_escape_concat(s@.take(i as int), seq![c]);
            assert(s@.take(i + 1) =~= s@.take(i as int) + seq![c]);
            assert(seq![c].skip(1) =~= Seq::<char>::empty());
            assert(escape_colons(Seq::<char>::empty()) =~= Seq::<char>::empty());
            if c == ':' {
                assert(escape_colons(seq![c]) =~= seq![':', ':']);
            } else {
                assert(escape_colons(seq![c]) =~= seq![c]);
            }
        }
        if c == ':' {
            out.push(':');
            out.push(':');
        } else {
            out.push(c);
        }
        i = i + 1;
    }
    assert(s@.take(s@.len() as int) =~= s@);
    out
}

/// `name.replace("::", ":")`.
pub fn unescape_colons_exec(s: &[char]) -> (res: Vec<char>)
    ensures
        res@ == unescape_colons(s@),
{
    let mut out: Vec<char> = Vec::new();
    let mut i: usize = 0;
    assert(s@.skip(0) =~= s@);
    while i < s.len()
        invariant
            i <= s@.len(),
            out@ + unescape_colons(s@.skip(i as int)) == unescape_colons(s@),
        decreases s@.len() - i,
    {
        let ghost rest = s@.skip(i as int);
        if i + 1 < s.len() && s[i] == ':' && s[i + 1] == ':' {
            out.push(':');
            assert(rest.skip(2) =~= s@.skip(i + 2));
            i = i + 2;
        } else {
            out.push(s[i]);
            proof {
                if rest.len() >= 2 {
                    assert(rest.skip(1) =~= s@.skip(i + 1));
                } else {
                    assert(unescape_colons(rest) == rest);
                    assert(s@.skip(i + 1) =~= Seq::<char>::empty());
                    assert(rest =~= seq![s@[i as int]]);
                }
            }
            i = i + 1;
        }
    }
    assert(s@.skip(i as int) =~= Seq::<char>::empty());
    out
}

} // verus!
