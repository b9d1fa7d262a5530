//! Decimal and hexadecimal text for unsigned integers: the digits that
//! `{}` and `{:x}` print, and the parsers `str::parse` and
//! `from_str_radix` that read them back.
use vstd::prelude::*;
use vstd::arithmetic::div_mod::*;
use crate::text::push_char;

verus! {

/// The character that stands for digit value `v` (lower-case letters above 9).
pub open spec fn digit_char(v: nat) -> char {
    if v < 10 {
        (('0' as u32) + v) as char
    } else {
        (('a' as u32) + (v - 10)) as char
    }
}

/// The value of `c` as a digit of radix `r`, when it is one (both cases of letters).
pub open spec fn digit_value(c: char, r: nat) -> Option<nat> {
    let u = c as u32;
    let v: int = if '0' as u32 <= u <= '9' as u32 {
        u - '0' as u32
    } else if 'a' as u32 <= u <= 'z' as u32 {
        u - 'a' as u32 + 10
    } else if 'A' as u32 <= u <= 'Z' as u32 {
        u - 'A' as u32 + 10
    } else {
        99
    };
    if v < r {
        Some(v as nat)
    } else {
        None
    }
}

pub open spec fn is_digit(c: char, r: nat) -> bool {
    digit_value(c, r) is Some
}

pub open spec fn all_digits(s: Seq<char>, r: nat) -> bool {
    forall|i: int| 0 <= i < s.len() ==> #[trigger] is_digit(s[i], r)
}

/// The number that the digits `s` spell in radix `r` (most significant first).
pub open spec fn digits_value(s: Seq<char>, r: nat) -> nat
    decreases s.len(),
{
    if s.len() == 0 {
        0
    } else {
        digits_value(s.drop_last(), r) * r + match digit_value(s.last(), r) {
            Some(v) => v,
            None => 0,
        }
    }
}

/// The digits of `n` in radix `r`, without leading zeros ("0" for zero):
/// what `{}` prints for radix 10 and `{:x}` for radix 16.
pub open spec fn radix_repr(n: nat, r: nat) -> Seq<char>
    recommends
        2 <= r <= 16,
    decreases n,
{
    if r < 2 || n < r {
        seq![digit_char(n)]
    } else {
        proof {
            lemma_div_decreases(n as int, r as int);
        }
        radix_repr(n / r, r).push(digit_char(n % r))
    }
}

pub open spec fn dec_repr(n: nat) -> Seq<char> {
    radix_repr(n, 10)
}

pub open spec fn hex_repr(n: nat) -> Seq<char> {
    radix_repr(n, 16)
}

/// What `from_str_radix(s, r)` returns for an unsigned type whose largest
/// value is `max`: an optional `+`, then at least one digit of radix `r`,
/// and a value no larger than `max`.
pub open spec fn parse_uint(s: Seq<char>, r: nat, max: nat) -> Option<nat> {
    let d = if s.len() > 0 && s[0] == '+' {
        s.drop_first()
    } else {
        s
    };
    if d.len() == 0 || !all_digits(d, r) || digits_value(d, r) > max {
        None
    } else {
        Some(digits_value(d, r))
    }
}

pub proof fn lemma_digit_char_value(v: nat, r: nat)
    requires
        v < r,
        r <= 16,
    ensures
        digit_value(digit_char(v), r) == Some(v),
        digit_char(v) != '+',
        digit_char(v) != ':',
        digit_char(v) != '\0',
        digit_char(v) != '.',
        digit_char(v) != '\x07',
        digit_char(v) != '{',
        ('0' <= digit_char(v) <= '9') || ('a' <= digit_char(v) <= 'f'),
{
}

/// The digits of a number are digits, not empty, and spell the number.
pub proof fn lemma_repr_value(n: nat, r: nat)
    requires
        2 <= r <= 16,
    ensures
        radix_repr(n, r).len() >= 1,
        all_digits(radix_repr(n, r), r),
        digits_value(radix_repr(n, r), r) == n,
        radix_repr(n, r)[0] != '+',
        n == 0 <==> radix_repr(n, r) == seq![digit_char(0)],
    decreases n,
{
    if n < r {
        lemma_digit_char_value(n, r);
        let s = radix_repr(n, r);
        assert(s.drop_last() =~= Seq::<char>::empty());
        assert(digits_value(Seq::<char>::empty(), r) == 0);
        assert(s.last() == digit_char(n));
        assert(digits_value(s, r) == digits_value(s.drop_last(), r) * r + n);
        if n != 0 {
            lemma_digit_char_value(0, r);
            assert(s[0] != digit_char(0));
        }
    } else {
        lemma_fundamental_div_mod(n as int, r as int);
        lemma_div_pos_is_pos(n as int, r as int);
        lemma_div_decreases(n as int, r as int);
        lemma_mod_bound(n as int, r as int);
        lemma_repr_value(n / r, r);
        let p = radix_repr(n / r, r);
        let s = p.push(digit_char(n % r));
        lemma_digit_char_value(n % r, r);
        assert(s.drop_last() =~= p);
        assert(digits_value(s, r) == digits_value(p, r) * r + n % r);
        assert((n / r) * r + n % r == n) by (nonlinear_arith)
            requires
                n == r * (n / r) + n % r,
        ;
        assert forall|i: int| 0 <= i < s.len() implies #[trigger] is_digit(s[i], r) by {
            if i < p.len() {
                assert(s[i] == p[i]);
            }
        }
        assert(s.len() >= 2);
        assert(s != seq![digit_char(0)]);
    }
}

/// Every digit that `radix_repr` prints is a hex digit character, so none of
/// the separators that the protocol uses occurs in it.
pub proof fn lemma_repr_chars(n: nat, r: nat)
    requires
        2 <= r <= 16,
    ensures
        forall|i: int|
            0 <= i < radix_repr(n, r).len() ==> {
                let c = #[trigger] radix_repr(n, r)[i];
                &&& c != ':'
                &&& c != '\0'
                &&& c != '+'
                &&& c != '.'
                &&& c != '\x07'
                &&& c != '{'
                &&& (('0' <= c <= '9') || ('a' <= c <= 'f'))
            },
    decreases n,
{
    if n < r {
        lemma_digit_char_value(n, r);
    } else {
        lemma_div_pos_is_pos(n as int, r as int);
        lemma_div_decreases(n as int, r as int);
        lemma_mod_bound(n as int, r as int);
        lemma_repr_chars(n / r, r);
        lemma_digit_char_value(n % r, r);
        let p = radix_repr(n / r, r);
        let s = p.push(digit_char(n % r));
        assert forall|i: int| 0 <= i < s.len() implies {
            let c = #[trigger] s[i];
            &&& c != ':'
            &&& c != '\0'
            &&& c != '+'
            &&& c != '.'
            &&& c != '\x07'
            &&& c != '{'
            &&& (('0' <= c <= '9') || ('a' <= c <= 'f'))
        } by {
            if i < p.len() {
                assert(s[i] == p[i]);
            }
        }
    }
}

/// A larger number has at least as many digits.
pub proof fn lemma_repr_len_mono(a: nat, c: nat, r: nat)
    requires
        2 <= r <= 16,
        a <= c,
    ensures
        radix_repr(a, r).len() <= radix_repr(c, r).len(),
    decreases c,
{
    lemma_repr_value(c, r);
    if c >= r && a >= r {
        lemma_div_decreases(c as int, r as int);
        lemma_div_is_ordered(a as int, c as int, r as int);
        lemma_repr_len_mono(a / r, c / r, r);
    }
}

/// `16^k`.
pub open spec fn pow16(k: nat) -> nat
    decreases k,
{
    if k == 0 {
        1
    } else {
        16 * pow16((k - 1) as nat)
    }
}

/// A number below `16^k` has at most `k` hex digits.
pub proof fn lemma_hex_len_bound(n: nat, k: nat)
    requires
        k >= 1,
        n < pow16(k),
    ensures
        hex_repr(n).len() <= k,
    decreases k,
{
    if n >= 16 {
        lemma_div_decreases(n as int, 16);
        assert(k >= 2) by {
            if k == 1 {
                assert(pow16(1) == 16 * pow16(0));
            }
        }
        assert(n / 16 < pow16((k - 1) as nat)) by {
            lemma_fundamental_div_mod(n as int, 16);
            lemma_mod_bound(n as int, 16);
        }
        lemma_hex_len_bound(n / 16, (k - 1) as nat);
    }
}

/// Reading back the digits of `n` gives `n`.
pub proof fn lemma_parse_repr(n: nat, r: nat, max: nat)
    requires
        2 <= r <= 16,
        n <= max,
    ensures
        parse_uint(radix_repr(n, r), r, max) == Some(n),
{
    lemma_repr_value(n, r);
}

/// A prefix of a digit string is worth no more than the whole.
pub proof fn lemma_value_prefix_mono(s: Seq<char>, i: int, r: nat)
    requires
        0 <= i <= s.len(),
        r >= 1,
    ensures
        digits_value(s.take(i), r) <= digits_value(s, r),
    decreases s.len(),
{
    if i < s.len() {
        assert(s.drop_last().take(i) =~= s.take(i));
        lemma_value_prefix_mono(s.drop_last(), i, r);
        let a = digits_value(s.drop_last(), r);
        assert(a <= a * r) by (nonlinear_arith)
            requires
                r >= 1,
        ;
    } else {
        assert(s.take(i) =~= s);
    }
}

pub proof fn lemma_value_push(s: Seq<char>, c: char, r: nat)
    ensures
        digits_value(s.push(c), r) == digits_value(s, r) * r + match digit_value(c, r) {
            Some(v) => v,
            None => 0,
        },
{
    assert(s.push(c).drop_last() =~= s);
}

/// The character for a digit value below 16.
pub fn digit_to_char(v: u64) -> (c: char)
    requires
        v < 16,
    ensures
        c == digit_char(v as nat),
{
    if v < 10 {
        let b: u8 = 48u8 + v as u8;
        let c = b as char;
        assert(c == digit_char(v as nat));
        c
    } else {
        let b: u8 = 87u8 + v as u8;
        let c = b as char;
        assert(c == digit_char(v as nat));
        c
    }
}

/// The value of `c` as a digit of radix `r`.
pub fn char_digit_value(c: char, r: u64) -> (res: Option<u64>)
    requires
        2 <= r <= 36,
    ensures
        res matches Some(v) ==> digit_value(c, r as nat) == Some(v as nat),
        res is None ==> digit_value(c, r as nat) is None,
{
    let u = c as u32;
    let v: u64 = if 48 <= u && u <= 57 {
        (u - 48) as u64
    } else if 97 <= u && u <= 122 {
        (u - 97 + 10) as u64
    } else if 65 <= u && u <= 90 {
        (u - 65 + 10) as u64
    } else {
        99
    };
    if v < r {
        Some(v)
    } else {
        None
    }
}

/// Appends the digits of `n` in radix `r` to `out`.
pub fn push_radix(out: &mut String, n: u64, r: u64)
    requires
        2 <= r <= 16,
    ensures
        final(out)@ == old(out)@ + radix_repr(n as nat, r as nat),
    decreases n,
{
    if n < r {
        let c = digit_to_char(n);
        push_char(out, c);
        assert(old(out)@.push(c) =~= old(out)@ + seq![c]);
    } else {
        proof {
            lemma_div_pos_is_pos(n as int, r as int);
            lemma_div_decreases(n as int, r as int);
        }
        push_radix(out, n / r, r);
        let c = digit_to_char(n % r);
        push_char(out, c);
        assert(old(out)@ + radix_repr(n as nat, r as nat) =~= old(out)@ + radix_repr(
            (n / r) as nat,
            r as nat,
        ) + seq![c]);
    }
}

/// Appends what `{}` prints for `n`.
pub fn push_dec(out: &mut String, n: u64)
    ensures
        final(out)@ == old(out)@ + dec_repr(n as nat),
{
    push_radix(out, n, 10);
}

/// Appends what `{}` prints for the wide unsigned `n`.
pub fn push_dec_wide(out: &mut String, n: u128)
    ensures
        final(out)@ == old(out)@ + dec_repr(n as nat),
    decreases n,
{
    if n < 10 {
        let c = digit_to_char(n as u64);
        push_char(out, c);
        assert(old(out)@.push(c) =~= old(out)@ + seq![c]);
    } else {
        proof {
            lemma_div_pos_is_pos(n as int, 10);
            lemma_div_decreases(n as int, 10);
        }
        push_dec_wide(out, n / 10);
        let c = digit_to_char((n % 10) as u64);
        push_char(out, c);
        assert(old(out)@ + dec_repr(n as nat) =~= old(out)@ + dec_repr((n / 10) as nat) + seq![c]);
    }
}

/// Appends what `{:x}` prints for `n`.
pub fn push_hex(out: &mut String, n: u64)
    ensures
        final(out)@ == old(out)@ + hex_repr(n as nat),
{
    push_radix(out, n, 16);
}

/// What `{}` prints for a signed integer.
pub open spec fn int_repr(i: int) -> Seq<char> {
    if i < 0 {
        seq!['-'] + dec_repr((-i) as nat)
    } else {
        dec_repr(i as nat)
    }
}

/// Appends what `{}` prints for `n`.
pub fn push_i64(out: &mut String, n: i64)
    ensures
        final(out)@ == old(out)@ + int_repr(n as int),
{
    if n < 0 {
        push_char(out, '-');
        let m: u64 = if n == i64::MIN {
            0x8000_0000_0000_0000
        } else {
            (-n) as u64
        };
        push_dec(out, m);
        assert(final(out)@ =~= old(out)@ + int_repr(n as int));
    } else {
        push_dec(out, n as u64);
    }
}

/// `from_str_radix` for an unsigned type whose largest value is `max`.
pub fn parse_uint_chars(s: &[char], r: u64, max: u64) -> (res: Option<u64>)
    requires
        2 <= r <= 16,
    ensures
        res matches Some(v) ==> parse_uint(s@, r as nat, max as nat) == Some(v as nat),
        res is None ==> parse_uint(s@, r as nat, max as nat) is None,
{
    let n = s.len();
    if n == 0 {
        return None;
    }
    let start: usize = if s[0] == '+' { 1 } else { 0 };
    if start == n {
        return None;
    }
    let ghost d = s@.subrange(start as int, n as int);
    assert(d =~= (if s@.len() > 0 && s@[0] == '+' { s@.drop_first() } else { s@ }));
    let mut acc: u64 = 0;
    let mut i: usize = start;
    while i < n
        invariant
            start <= i <= n,
            n == s@.len(),
            d == s@.subrange(start as int, n as int),
            d == (if s@.len() > 0 && s@[0] == '+' { s@.drop_first() } else { s@ }),
            2 <= r <= 16,
            acc as nat == digits_value(d.take(i - start), r as nat),
            acc <= max,
            all_digits(d.take(i - start), r as nat),
        decreases n - i,
    {
        let c = s[i];
        let dv = char_digit_value(c, r);
        let ghost pre = d.take(i - start);
        assert(d.take(i - start + 1) =~= pre.push(c));
        proof {
            lemma_value_push(pre, c, r as nat);
        }
        match dv {
            None => {
                assert(!is_digit(d[i - start], r as nat));
                assert(!all_digits(d, r as nat));
                return None;
            },
            Some(v) => {
                let next = match acc.checked_mul(r) {
                    Some(m) => m.checked_add(v),
                    None => None,
                };
                match next {
                    Some(x) if x <= max => {
                        proof {
                            let p2 = pre.push(c);
                            assert forall|j: int| 0 <= j < p2.len() implies #[trigger] is_digit(
                                p2[j],
                                r as nat,
                            ) by {
                                if j < pre.len() {
                                    assert(p2[j] == pre[j]);
                                }
                            }
                        }
                        acc = x;
                        i = i + 1;
                    },
                    _ => {
                        proof {
                            lemma_value_prefix_mono(d, i - start + 1, r as nat);
                            assert(digits_value(d, r as nat) > max);
                        }
                        return None;
                    },
                }
            },
        }
    }
    assert(d.take(n - start) =~= d);
    Some(acc)
}

} // verus!
