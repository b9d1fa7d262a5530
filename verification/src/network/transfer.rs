//! Progress of a file transfer: when a progress report is due and what it
//! says. A report is due each time the whole percentage, as the transfer
//! computes it in `f64`, grows; it gives the bytes copied out of the size.
use vstd::prelude::*;
use vstd::arithmetic::power2::{
    lemma2_to64, lemma2_to64_rest, lemma_pow2_adds, lemma_pow2_strictly_increases, lemma_pow2_unfold,
    pow2,
};
use crate::numfmt::{dec_repr, digit_char, digit_to_char, push_dec_wide};
use crate::text::push_char;
use crate::types::{div_round_even, round_div_even, u64_as_f64, u64_f64_value, Progress};

verus! {

/// The largest percentage reported (`i32::MAX`).
pub const MAX_PERCENT: u64 = 0x7FFF_FFFF;

/// The least exponent `e`, from `k` on and below 120, for which `a`
/// scaled by `2^e` reaches `2^52` times `b`: the scale at which the
/// quotient `a / b` has a 53-bit integer part.
pub open spec fn quotient_exp(a: nat, b: nat, k: nat) -> nat
    decreases 120 - k,
{
    if k >= 120 || a * pow2(k) >= 0x10_0000_0000_0000 * b {
        k
    } else {
        quotient_exp(a, b, k + 1)
    }
}

/// What `(a / b * 100.0) as i32` gives for the `f64` values `a` and `b`
/// (integers, `b` positive): the quotient is rounded to a 53-bit
/// significand `m` times `2^-e`, a tie going to the even significand; the
/// product by 100 is `100 m` rounded to 53 significant bits times `2^-e`;
/// the conversion takes its integer part, at most `i32::MAX`. A quotient of
/// `2^32` or more already gives `i32::MAX`.
pub open spec fn float_percent(a: nat, b: nat) -> nat {
    if a == 0 {
        0
    } else if a >= b * 0x1_0000_0000 {
        MAX_PERCENT as nat
    } else {
        let e = quotient_exp(a, b, 0);
        let m = div_round_even(a * pow2(e), b);
        let whole = u64_as_f64(100 * m) / pow2(e);
        if whole > MAX_PERCENT {
            MAX_PERCENT as nat
        } else {
            whole
        }
    }
}

/// The whole percentage of `bytes` out of `size` as the transfer computes
/// it in `f64`, `(bytes as f64 / size as f64 * 100.0) as i32` (100 for an
/// empty file).
pub open spec fn percent_of(bytes: u64, size: u64) -> u64 {
    if size == 0 {
        100
    } else {
        float_percent(u64_as_f64(bytes as nat), u64_as_f64(size as nat)) as u64
    }
}

/// The progress of `bytes` out of `size`; `empty` is what an empty file
/// counts as.
pub open spec fn progress_of(bytes: u64, size: u64, empty: Progress) -> Progress {
    if size == 0 {
        empty
    } else {
        Progress { done: bytes, of: size }
    }
}

/// The significand and scale of the `f64` quotient `a / b` below `2^52`:
/// the scale is `2^e` for `e = quotient_exp(a, b, 0)` and the significand
/// `a 2^e / b` rounded, a tie going to the even one.
fn f64_quotient_down(a: u128, b: u128) -> (res: (u128, u128))
    requires
        0 < b <= 0x2_0000_0000_0000_0000,
        0 < a < 0x10_0000_0000_0000 * b,
    ensures
        res.1 == pow2(quotient_exp(a as nat, b as nat, 0)),
        res.0 == div_round_even(a as nat * pow2(quotient_exp(a as nat, b as nat, 0)), b as nat),
        res.0 <= 0x20_0000_0000_0000,
        1 <= res.1 < 0x20_0000_0000_0000 * 0x2_0000_0000_0000_0000,
{
    let ghost an = a as nat;
    let ghost bn = b as nat;
    let mut k: u32 = 0;
    let mut ak: u128 = a;
    let mut pk: u128 = 1;
    proof {
        lemma2_to64();
        lemma2_to64_rest();
        lemma_pow2_adds(64, 53);
    }
    while ak < 0x10_0000_0000_0000 * b
        invariant
            0 < bn <= 0x2_0000_0000_0000_0000,
            0 < an < 0x10_0000_0000_0000 * bn,
            an == a,
            bn == b,
            pk == pow2(k as nat),
            ak == an * pow2(k as nat),
            1 <= pk <= ak,
            ak < 0x20_0000_0000_0000 * bn,
            k <= 117,
            pow2(117) == 0x20_0000_0000_0000 * 0x1_0000_0000_0000_0000,
            quotient_exp(an, bn, 0) == quotient_exp(an, bn, k as nat),
        decreases 117 - k,
    {
        proof {
            lemma_pow2_unfold(k as nat + 1);
            assert(an * pow2(k as nat + 1) == 2 * (an * pow2(k as nat))) by (nonlinear_arith)
                requires
                    pow2(k as nat + 1) == 2 * pow2(k as nat),
            ;
            if k >= 117 {
                if k > 117 {
                    lemma_pow2_strictly_increases(117, k as nat);
                }
                assert(pk >= pow2(117));
                assert(false);
            }
        }
        ak = ak * 2;
        pk = pk * 2;
        k = k + 1;
    }
    assert(quotient_exp(an, bn, k as nat) == k);
    let m = round_div_even(ak, b);
    proof {
        assert(ak / b < 0x20_0000_0000_0000) by (nonlinear_arith)
            requires
                ak < 0x20_0000_0000_0000 * b,
                b > 0,
        ;
    }
    assert(m <= ak / b + 1);
    (m, pk)
}

fn percent(bytes: u64, size: u64) -> (res: u64)
    ensures
        res == percent_of(bytes, size),
{
    if size == 0 {
        return 100;
    }
    let a = u64_f64_value(bytes);
    let b = u64_f64_value(size);
    if a == 0 {
        return 0;
    }
    if a >= b * 0x1_0000_0000 {
        return MAX_PERCENT;
    }
    let (m, pk) = f64_quotient_down(a, b);
    let hundred_m = (100 * m) as u64;
    let p = u64_f64_value(hundred_m);
    let whole = p / pk;
    if whole > MAX_PERCENT as u128 {
        MAX_PERCENT
    } else {
        whole as u64
    }
}

/// The least exponent `k`, from `k` on and below 20, for which `a` is
/// below `2^53` times `b 2^k`: the scale at which the quotient `a / b`,
/// of `2^52` or more, has a 53-bit integer part.
pub open spec fn up_exp(a: nat, b: nat, k: nat) -> nat
    decreases 20 - k,
{
    if k >= 20 || a < 0x20_0000_0000_0000 * (b * pow2(k)) {
        k
    } else {
        up_exp(a, b, k + 1)
    }
}

/// What `{:.1}` prints of `(a / b * 100.0)` for the `f64` values `a` and
/// `b` (integers, `b` positive), as a number of tenths: the quotient is
/// rounded to a 53-bit significand, the product by 100 to 53 significant
/// bits, and the exact result to the nearest tenth, a tie going to the
/// even digit.
pub open spec fn percent_tenths(a: nat, b: nat) -> nat {
    if a == 0 {
        0
    } else if a < 0x10_0000_0000_0000 * b {
        let e = quotient_exp(a, b, 0);
        let m = div_round_even(a * pow2(e), b);
        div_round_even(10 * u64_as_f64(100 * m), pow2(e))
    } else {
        let k = up_exp(a, b, 0);
        let m = div_round_even(a, b * pow2(k));
        10 * u64_as_f64(100 * m) * pow2(k)
    }
}

/// What `{:.1}` prints of a progress times 100: `NaN` or `inf` for a
/// fraction of nothing, else the percentage with one decimal.
pub open spec fn progress_percent_text(p: Progress) -> Seq<char> {
    if p.of == 0 {
        if p.done == 0 {
            seq!['N', 'a', 'N']
        } else {
            seq!['i', 'n', 'f']
        }
    } else {
        let t = percent_tenths(u64_as_f64(p.done as nat), u64_as_f64(p.of as nat));
        dec_repr(t / 10) + seq!['.', digit_char(t % 10)]
    }
}

/// The number of tenths that `percent_tenths` gives for the `f64` values
/// of `done` and `of` (`of` positive).
fn progress_tenths(done: u64, of: u64) -> (res: u128)
    requires
        of > 0,
    ensures
        res == percent_tenths(u64_as_f64(done as nat), u64_as_f64(of as nat)),
{
    let a = u64_f64_value(done);
    let b = u64_f64_value(of);
    if a == 0 {
        return 0;
    }
    if a < 0x10_0000_0000_0000 * b {
        let (m, pk) = f64_quotient_down(a, b);
        let hundred_m = (100 * m) as u64;
        let p = u64_f64_value(hundred_m);
        assert(10 * p < 0x1000_0000_0000_0000_0000_0000_0000_0000);
        round_div_even(10 * p, pk)
    } else {
        let ghost an = a as nat;
        let ghost bn = b as nat;
        let mut k: u32 = 0;
        let mut bk: u128 = b;
        let mut pk: u128 = 1;
        proof {
            lemma2_to64();
        }
        while a >= 0x20_0000_0000_0000 * bk
            invariant
                0 < bn <= 0x2_0000_0000_0000_0000,
                0x10_0000_0000_0000 * bn <= an <= 0x2_0000_0000_0000_0000,
                an == a,
                bn == b,
                pk == pow2(k as nat),
                bk == bn * pow2(k as nat),
                1 <= pk <= bk,
                0x10_0000_0000_0000 * bk <= an,
                k <= 20,
                up_exp(an, bn, 0) == up_exp(an, bn, k as nat),
            decreases 20 - k,
        {
            proof {
                lemma2_to64();
                lemma_pow2_unfold(k as nat + 1);
                assert(bn * pow2(k as nat + 1) == 2 * (bn * pow2(k as nat))) by (nonlinear_arith)
                    requires
                        pow2(k as nat + 1) == 2 * pow2(k as nat),
                ;
                if k >= 13 {
                    if k > 13 {
                        lemma_pow2_strictly_increases(13, k as nat);
                    }
                    assert(pk >= pow2(13));
                    assert(false);
                }
            }
            bk = bk * 2;
            pk = pk * 2;
            k = k + 1;
        }
        assert(up_exp(an, bn, k as nat) == k);
        let m = round_div_even(a, bk);
        proof {
            assert(a / bk < 0x20_0000_0000_0000) by (nonlinear_arith)
                requires
                    a < 0x20_0000_0000_0000 * bk,
                    bk > 0,
            ;
        }
        assert(m <= a / bk + 1);
        let hundred_m = (100 * m) as u64;
        let p = u64_f64_value(hundred_m);
        proof {
            assert(10 * p * pk <= 10 * 0x2_0000_0000_0000_0000 * 0x2000) by (nonlinear_arith)
                requires
                    p <= 0x2_0000_0000_0000_0000,
                    pk <= 0x2000,
            ;
        }
        10 * p * pk
    }
}

/// Appends what `{:.1}` prints of `p` times 100.
pub fn push_progress_percent(out: &mut String, p: Progress)
    ensures
        final(out)@ == old(out)@ + progress_percent_text(p),
{
    if p.of == 0 {
        if p.done == 0 {
            push_char(out, 'N');
            push_char(out, 'a');
            push_char(out, 'N');
        } else {
            push_char(out, 'i');
            push_char(out, 'n');
            push_char(out, 'f');
        }
        assert(final(out)@ =~= old(out)@ + progress_percent_text(p));
    } else {
        let t = progress_tenths(p.done, p.of);
        push_dec_wide(out, t / 10);
        push_char(out, '.');
        push_char(out, digit_to_char((t % 10) as u64));
        assert(final(out)@ =~= old(out)@ + progress_percent_text(p));
    }
}

fn progress(bytes: u64, size: u64, empty: Progress) -> (res: Progress)
    ensures
        res == progress_of(bytes, size, empty),
{
    if size == 0 {
        empty
    } else {
        Progress { done: bytes, of: size }
    }
}

/// The progress report due after `n` more bytes, when `copied` bytes went
/// through before and `last` is the percentage reported last: the progress
/// of the new count when its whole percentage is higher.
pub open spec fn chunk_report(size: u64, copied: u64, last: u64, n: u64) -> Option<Progress> {
    let c = (copied + n) as u64;
    if percent_of(c, size) > last {
        Some(progress_of(c, size, Progress { done: 1, of: 1 }))
    } else {
        None
    }
}

/// The percentage reported last after such a chunk.
pub open spec fn last_after(size: u64, copied: u64, last: u64, n: u64) -> u64 {
    let c = (copied + n) as u64;
    if percent_of(c, size) > last {
        percent_of(c, size)
    } else {
        last
    }
}

/// The reports of a copy that passes the chunks `ks` in turn, each with the
/// byte count it reports.
pub open spec fn reports(size: u64, copied: u64, last: u64, ks: Seq<u64>) -> Seq<(u64, Progress)>
    decreases ks.len(),
{
    if ks.len() == 0 {
        seq![]
    } else {
        let c = (copied + ks[0]) as u64;
        let rest = reports(size, c, last_after(size, copied, last, ks[0]), ks.skip(1));
        match chunk_report(size, copied, last, ks[0]) {
            Some(p) => seq![(c, p)] + rest,
            None => rest,
        }
    }
}

/// What happened in a copy since the last step.
#[derive(Debug, Clone, Copy, PartialEq, Eq, Structural)]
pub enum CopySignal {
    /// The transfer is being shut down.
    Stopped,
    /// Reading or writing failed.
    Failed,
    /// These many more bytes were written.
    Copied(u64),
    /// The source is exhausted.
    Ended,
}

/// What a copy reports next.
#[derive(Debug, Clone, Copy, PartialEq, Eq, Structural)]
pub enum CopyAction {
    /// Go on, reporting this progress as transferring when there is one.
    Continue(Option<Progress>),
    /// Stop, reporting this progress as failed.
    Fail(Progress),
    /// Stop, reporting this progress as completed.
    Complete(Progress),
}

/// The progress of one transfer.
pub struct TransferProgress {
    file_size: u64,
    bytes_copied: u64,
    last_reported_percent: u64,
}

impl TransferProgress {
    pub closed spec fn size(&self) -> u64 {
        self.file_size
    }

    pub closed spec fn copied(&self) -> u64 {
        self.bytes_copied
    }

    pub closed spec fn last_percent(&self) -> u64 {
        self.last_reported_percent
    }

    /// A transfer of `file_size` bytes that starts at `initial_bytes`; the
    /// percentage already reached counts as reported (0 for an empty file).
    pub fn new(file_size: u64, initial_bytes: u64) -> (res: TransferProgress)
        ensures
            res.size() == file_size,
            res.copied() == initial_bytes,
            res.last_percent() == if file_size > 0 {
                percent_of(initial_bytes, file_size)
            } else {
                0
            },
    {
        let last = if file_size > 0 {
            percent(initial_bytes, file_size)
        } else {
            0
        };
        TransferProgress { file_size, bytes_copied: initial_bytes, last_reported_percent: last }
    }

    /// `n` more bytes went through. When the whole percentage grew, the
    /// progress to report (a full transfer for an empty file).
    pub fn on_chunk(&mut self, n: u64) -> (res: Option<Progress>)
        requires
            old(self).copied() + n <= u64::MAX,
        ensures
            final(self).copied() == old(self).copied() + n,
            final(self).size() == old(self).size(),
            percent_of(final(self).copied(), final(self).size()) > old(self).last_percent() ==> res
                == Some(progress_of(final(self).copied(), final(self).size(), Progress { done: 1, of: 1 }))
                && final(self).last_percent() == percent_of(
                final(self).copied(),
                final(self).size(),
            ),
            percent_of(final(self).copied(), final(self).size()) <= old(self).last_percent() ==> res
                is None && final(self).last_percent() == old(self).last_percent(),
    {
        self.bytes_copied = self.bytes_copied + n;
        let p = percent(self.bytes_copied, self.file_size);
        if p > self.last_reported_percent {
            self.last_reported_percent = p;
            Some(progress(self.bytes_copied, self.file_size, Progress { done: 1, of: 1 }))
        } else {
            None
        }
    }

    /// The progress to report when the transfer fails (none for an empty
    /// file).
    pub fn failed_progress(&self) -> (res: Progress)
        ensures
            res == progress_of(self.copied(), self.size(), Progress { done: 0, of: 1 }),
    {
        progress(self.bytes_copied, self.file_size, Progress { done: 0, of: 1 })
    }

    /// The progress to report when the transfer completes: all of it.
    pub fn completed_progress(&self) -> (res: Progress)
        ensures
            res == (Progress { done: 1, of: 1 }),
    {
        Progress { done: 1, of: 1 }
    }

    /// One step of a copy: a shutdown or a failed read or write ends it as
    /// failed at the progress reached; more bytes are counted and reported
    /// as `on_chunk` does; the end of the source completes it.
    pub fn step(&mut self, signal: CopySignal) -> (res: CopyAction)
        requires
            old(self).copied() + match signal {
                CopySignal::Copied(n) => n,
                _ => 0,
            } <= u64::MAX,
        ensures
            final(self).size() == old(self).size(),
            match signal {
                CopySignal::Copied(n) => res == CopyAction::Continue(
                    chunk_report(old(self).size(), old(self).copied(), old(self).last_percent(), n),
                ) && final(self).copied() == old(self).copied() + n && final(self).last_percent()
                    == last_after(old(self).size(), old(self).copied(), old(self).last_percent(), n),
                CopySignal::Ended => res == CopyAction::Complete(Progress { done: 1, of: 1 }) && *final(self)
                    == *old(self),
                _ => res == CopyAction::Fail(
                    progress_of(old(self).copied(), old(self).size(), Progress { done: 0, of: 1 }),
                )
                    && *final(self) == *old(self),
            },
    {
        match signal {
            CopySignal::Copied(n) => CopyAction::Continue(self.on_chunk(n)),
            CopySignal::Ended => CopyAction::Complete(self.completed_progress()),
            _ => CopyAction::Fail(self.failed_progress()),
        }
    }
}

/// Over a whole copy from `copied` bytes, with `last` the percentage
/// already reported, the progress reports come in order: each reports the
/// bytes copied by then, its whole percentage is above `last` and above
/// that of every report before it.
pub proof fn lemma_reports_increase(size: u64, copied: u64, last: u64, ks: Seq<u64>)
    ensures
        forall|i: int|
            0 <= i < reports(size, copied, last, ks).len() ==> percent_of(
                #[trigger] reports(size, copied, last, ks)[i].0,
                size,
            ) > last && reports(size, copied, last, ks)[i].1 == progress_of(
                reports(size, copied, last, ks)[i].0,
                size,
                Progress { done: 1, of: 1 },
            ),
        forall|i: int, j: int|
            0 <= i < j < reports(size, copied, last, ks).len() ==> percent_of(
                #[trigger] reports(size, copied, last, ks)[i].0,
                size,
            ) < percent_of(#[trigger] reports(size, copied, last, ks)[j].0, size),
    decreases ks.len(),
{
    if ks.len() > 0 {
        let c = (copied + ks[0]) as u64;
        let l2 = last_after(size, copied, last, ks[0]);
        lemma_reports_increase(size, c, l2, ks.skip(1));
        let rest = reports(size, c, l2, ks.skip(1));
        let r = reports(size, copied, last, ks);
        match chunk_report(size, copied, last, ks[0]) {
            Some(p) => {
                assert(r == seq![(c, p)] + rest);
                assert forall|i: int| 0 <= i < r.len() implies percent_of(#[trigger] r[i].0, size) > last
                    && r[i].1 == progress_of(r[i].0, size, Progress { done: 1, of: 1 }) by {
                    if i > 0 {
                        assert(r[i] == rest[i - 1]);
                    }
                }
                assert forall|i: int, j: int| 0 <= i < j < r.len() implies percent_of(
                    #[trigger] r[i].0,
                    size,
                ) < percent_of(#[trigger] r[j].0, size) by {
                    assert(r[j] == rest[j - 1]);
                    if i > 0 {
                        assert(r[i] == rest[i - 1]);
                    }
                }
            },
            None => {
                assert(r == rest);
            },
        }
    }
}

} // verus!
