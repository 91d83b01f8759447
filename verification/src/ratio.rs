//! Non-negative fractions written in decimal (`"0.08"`, `"1.5"`) and the
//! comparisons the probe rules make with them, in exact integer arithmetic.
use vstd::prelude::*;
use crate::text::{chars_of, first_index_of, lemma_first_index_of};

verus! {

/// The fraction `num / den`.
#[derive(Clone, Copy, Debug, PartialEq, Eq, Structural)]
pub struct Ratio {
    pub num: u32,
    pub den: u32,
}

/// Peer progress is counted in millionths: `PROGRESS_SCALE` means complete.
pub const PROGRESS_SCALE: u32 = 1_000_000;

pub open spec fn is_digit(c: char) -> bool {
    '0' <= c && c <= '9'
}

pub open spec fn digit_value(c: char) -> nat {
    (c as int - '0' as int) as nat
}

pub open spec fn all_digits(s: Seq<char>) -> bool {
    forall|i: int| 0 <= i < s.len() ==> is_digit(#[trigger] s[i])
}

/// The number that the decimal digits `s` spell.
pub open spec fn digits_value(s: Seq<char>) -> nat
    decreases s.len(),
{
    if s.len() == 0 {
        0
    } else {
        digits_value(s.drop_last()) * 10 + digit_value(s.last())
    }
}

pub open spec fn pow10(n: nat) -> nat
    decreases n,
{
    if n == 0 {
        1
    } else {
        10 * pow10((n - 1) as nat)
    }
}

/// The value of a decimal `digits` or `digits.digits`, as numerator and
/// denominator (a power of ten); `None` when `s` has another form.
pub open spec fn decimal_of(s: Seq<char>) -> Option<(nat, nat)> {
    let p = first_index_of(s, '.');
    if p == 0 || !all_digits(s.take(p)) {
        None
    } else if p == s.len() {
        Some((digits_value(s), 1nat))
    } else {
        let f = s.skip(p + 1);
        if f.len() == 0 || !all_digits(f) {
            None
        } else {
            Some((digits_value(s.take(p) + f), pow10(f.len())))
        }
    }
}

/// The decimal `s` as a `Ratio`, when it has that form and both parts fit in `u32`.
pub open spec fn ratio_of(s: Seq<char>) -> Option<Ratio> {
    match decimal_of(s) {
        Some((n, d)) => if n <= u32::MAX && d <= u32::MAX {
            Some(Ratio { num: n as u32, den: d as u32 })
        } else {
            None
        },
        None => None,
    }
}

/// `amount / total > t`; a zero total stands for an unbounded quotient when
/// `amount` is positive and for no quotient at all when it is zero.
pub open spec fn ratio_exceeds(amount: int, total: int, t: Ratio) -> bool {
    if total == 0 {
        amount > 0
    } else {
        amount * t.den > t.num * total
    }
}

/// `amount / total - progress / PROGRESS_SCALE > t`, with the same reading
/// of a zero total as `ratio_exceeds`.
pub open spec fn progress_gap_exceeds(amount: int, total: int, progress: int, t: Ratio) -> bool {
    if total == 0 {
        amount > 0
    } else {
        amount * PROGRESS_SCALE * t.den > total * (t.num * PROGRESS_SCALE + progress * t.den)
    }
}

proof fn lemma_digits_push(s: Seq<char>, c: char)
    ensures
        digits_value(s.push(c)) == digits_value(s) * 10 + digit_value(c),
{
    assert(s.push(c).drop_last() =~= s);
}

proof fn lemma_pow10_positive(n: nat)
    ensures
        pow10(n) >= 1,
    decreases n,
{
    if n > 0 {
        lemma_pow10_positive((n - 1) as nat);
    }
}

/// Appending digits never lowers the value.
proof fn lemma_digits_append_monotone(a: Seq<char>, b: Seq<char>)
    ensures
        digits_value(a) <= digits_value(a + b),
    decreases b.len(),
{
    if b.len() > 0 {
        let b0 = b.drop_last();
        lemma_digits_append_monotone(a, b0);
        assert((a + b0).push(b.last()) =~= a + b);
        lemma_digits_push(a + b0, b.last());
    }
}

/// Reads `s` as a decimal fraction.
pub fn parse_decimal(s: &str) -> (r: Option<Ratio>)
    ensures
        r == ratio_of(s@),
{
    let cs = chars_of(s);
    let n = cs.len();
    let ghost sq = cs@;
    proof {
        lemma_first_index_of(sq, '.');
    }
    // position of the first '.'
    let mut p: usize = 0;
    while p < n && cs[p] != '.'
        invariant
            n == sq.len(),
            cs@ == sq,
            sq == s@,
            p <= n,
            forall|j: int| 0 <= j < p ==> sq[j] != '.',
        decreases n - p,
    {
        p = p + 1;
    }
    proof {
        crate::text::lemma_first_index_unique(sq, '.', p as int);
    }
    if p == 0 {
        return None;
    }
    // integer part
    let mut acc: u64 = 0;
    let mut i: usize = 0;
    while i < p
        invariant
            n == sq.len(),
            cs@ == sq,
            sq == s@,
            p <= n,
            i <= p,
            first_index_of(sq, '.') == p,
            all_digits(sq.take(i as int)),
            acc as nat == digits_value(sq.take(i as int)),
            acc <= u32::MAX,
        decreases p - i,
    {
        let c = cs[i];
        if !('0' <= c && c <= '9') {
            proof {
                assert(sq.take(p as int)[i as int] == c);
                assert(!all_digits(sq.take(p as int)));
                assert(decimal_of(sq) is None);
            }
            return None;
        }
        let d: u64 = ((c as u32) - ('0' as u32)) as u64;
        proof {
            assert(sq.take(i + 1) =~= sq.take(i as int).push(c));
            lemma_digits_push(sq.take(i as int), c);
        }
        let next = acc * 10 + d;
        if next > u32::MAX as u64 {
            proof {
                // the value only grows with further digits
                let rest = sq.take(p as int).skip(i + 1);
                assert(sq.take(i + 1) + rest =~= sq.take(p as int));
                lemma_digits_append_monotone(sq.take(i + 1), rest);
                assert(digits_value(sq.take(p as int)) > u32::MAX);
                if p == n {
                    assert(sq.take(p as int) =~= sq);
                } else {
                    let f = sq.skip(p + 1);
                    lemma_digits_append_monotone(sq.take(p as int), f);
                }
                assert(ratio_of(sq) is None);
            }
            return None;
        }
        acc = next;
        i = i + 1;
    }
    if p == n {
        assert(sq.take(p as int) =~= sq);
        return Some(Ratio { num: acc as u32, den: 1 });
    }
    // fraction part
    let ghost f = sq.skip(p + 1);
    if p + 1 == n {
        assert(f.len() == 0);
        return None;
    }
    let mut den: u64 = 1;
    let mut k: usize = p + 1;
    while k < n
        invariant
            n == sq.len(),
            cs@ == sq,
            sq == s@,
            0 < p < n,
            p + 1 <= k <= n,
            f == sq.skip(p + 1),
            first_index_of(sq, '.') == p,
            all_digits(sq.take(p as int)),
            all_digits(f.take(k - p - 1)),
            acc as nat == digits_value(sq.take(p as int) + f.take(k - p - 1)),
            den as nat == pow10((k - p - 1) as nat),
            acc <= u32::MAX,
            den <= u32::MAX,
        decreases n - k,
    {
        let c = cs[k];
        let ghost j: int = k - p - 1;
        assert(f[j] == c);
        if !('0' <= c && c <= '9') {
            assert(!all_digits(f));
            return None;
        }
        let d: u64 = ((c as u32) - ('0' as u32)) as u64;
        proof {
            assert(f.take(j + 1) =~= f.take(j).push(c));
            assert(sq.take(p as int) + f.take(j + 1) =~= (sq.take(p as int) + f.take(j)).push(c));
            lemma_digits_push(sq.take(p as int) + f.take(j), c);
        }
        let next = acc * 10 + d;
        let next_den = den * 10;
        if next > u32::MAX as u64 || next_den > u32::MAX as u64 {
            proof {
                if all_digits(f) {
                    let rest = f.skip(j + 1);
                    assert(f.take(j + 1) + rest =~= f);
                    assert((sq.take(p as int) + f.take(j + 1)) + rest =~= sq.take(p as int) + f);
                    lemma_digits_append_monotone(sq.take(p as int) + f.take(j + 1), rest);
                    lemma_pow10_monotone((j + 1) as nat, f.len());
                    assert(pow10((j + 1) as nat) == 10 * pow10(j as nat));
                    assert(decimal_of(sq) == Some((digits_value(sq.take(p as int) + f), pow10(f.len()))));
                }
                assert(ratio_of(sq) is None);
            }
            return None;
        }
        acc = next;
        den = next_den;
        k = k + 1;
    }
    assert(f.take(f.len() as int) =~= f);
    Some(Ratio { num: acc as u32, den: den as u32 })
}

/// Whether `amount / total` exceeds `t` (see `ratio_exceeds`).
pub fn exceeds_ratio(amount: u64, total: u64, t: Ratio) -> (r: bool)
    ensures
        r == ratio_exceeds(amount as int, total as int, t),
{
    if total == 0 {
        return amount > 0;
    }
    let a = amount as u128;
    let d = t.den as u128;
    let n = t.num as u128;
    let m = total as u128;
    assert(a * d <= 0xffff_ffff_ffff_ffff * 0xffff_ffffu128) by (nonlinear_arith)
        requires
            a <= 0xffff_ffff_ffff_ffff,
            d <= 0xffff_ffff,
    ;
    assert(n * m <= 0xffff_ffff * 0xffff_ffff_ffff_ffffu128) by (nonlinear_arith)
        requires
            m <= 0xffff_ffff_ffff_ffff,
            n <= 0xffff_ffff,
    ;
    a * d > n * m
}

/// Whether `amount / total - progress / PROGRESS_SCALE` exceeds `t`
/// (see `progress_gap_exceeds`).
pub fn exceeds_progress_gap(amount: u64, total: u64, progress: u32, t: Ratio) -> (r: bool)
    ensures
        r == progress_gap_exceeds(amount as int, total as int, progress as int, t),
{
    if total == 0 {
        return amount > 0;
    }
    let a = amount as u128;
    let sc = PROGRESS_SCALE as u128;
    let d = t.den as u128;
    let n = t.num as u128;
    let pr = progress as u128;
    let m = total as u128;
    assert(a * sc <= 0xffff_ffff_ffff_ffff * 1_000_000u128) by (nonlinear_arith)
        requires
            a <= 0xffff_ffff_ffff_ffff,
            sc == 1_000_000,
    ;
    let a_sc = a * sc;
    assert(a_sc * d <= 0xffff_ffff_ffff_ffff * 1_000_000u128 * 0xffff_ffffu128) by (nonlinear_arith)
        requires
            a_sc <= 0xffff_ffff_ffff_ffff * 1_000_000u128,
            d <= 0xffff_ffff,
    ;
    let lhs = a_sc * d;
    assert(n * sc <= 0xffff_ffff * 1_000_000u128) by (nonlinear_arith)
        requires
            n <= 0xffff_ffff,
            sc == 1_000_000,
    ;
    assert(pr * d <= 0xffff_ffff * 0xffff_ffffu128) by (nonlinear_arith)
        requires
            pr <= 0xffff_ffff,
            d <= 0xffff_ffff,
    ;
    let inner = n * sc + pr * d;
    match m.checked_mul(inner) {
        Some(rhs) => lhs > rhs,
        None => {
            // the right side is past u128::MAX, the left side is not
            false
        },
    }
}

proof fn lemma_pow10_monotone(a: nat, b: nat)
    requires
        a <= b,
    ensures
        pow10(a) <= pow10(b),
    decreases b,
{
    if a < b {
        lemma_pow10_monotone(a, (b - 1) as nat);
        lemma_pow10_positive((b - 1) as nat);
    }
}

/// Ten to a sum of powers is the product of the powers.
pub proof fn lemma_pow10_add(a: nat, b: nat)
    ensures
        pow10(a + b) == pow10(a) * pow10(b),
        pow10(1) == 10,
    decreases b,
{
    reveal_with_fuel(pow10, 2);
    if b == 0 {
        assert(pow10(0) == 1);
        assert(a + b == a);
        assert(pow10(a) * 1 == pow10(a));
    } else {
        lemma_pow10_add(a, (b - 1) as nat);
        assert((a + b - 1) as nat == a + (b - 1) as nat);
        assert(pow10(a + b) == 10 * pow10((a + b - 1) as nat));
        assert(pow10(a) * pow10(b) == pow10(a) * (10 * pow10((b - 1) as nat)));
        assert(pow10(a) * (10 * pow10((b - 1) as nat)) == 10 * (pow10(a) * pow10((b - 1) as nat)))
            by (nonlinear_arith);
    }
}

/// A single digit spells its own value, which is below ten; digits written
/// after others shift them up by a power of ten.
pub proof fn lemma_digits_value_concat(a: Seq<char>, b: Seq<char>)
    ensures
        digits_value(a + b) == digits_value(a) * pow10(b.len()) + digits_value(b),
    decreases b.len(),
{
    if b.len() == 0 {
        assert(a + b =~= a);
        assert(pow10(0) == 1);
        assert(digits_value(a) * 1 == digits_value(a));
    } else {
        let b0 = b.drop_last();
        lemma_digits_value_concat(a, b0);
        assert((a + b).drop_last() =~= a + b0);
        assert((a + b).last() == b.last());
        lemma_pow10_add(b0.len(), 1);
        assert(b.len() == b0.len() + 1);
        assert(digits_value(b) == digits_value(b0) * 10 + digit_value(b.last()));
        let x = digits_value(a);
        let p = pow10(b0.len());
        assert(pow10(b.len()) == p * 10);
        assert((x * p + digits_value(b0)) * 10 + digit_value(b.last()) == x * (p * 10) + (
        digits_value(b0) * 10 + digit_value(b.last()))) by (nonlinear_arith);
    }
}

/// One digit spells its own value, from 0 to 9.
pub proof fn lemma_digits_value_single(c: char)
    requires
        is_digit(c),
    ensures
        digits_value(seq![c]) == c as int - '0' as int,
        digits_value(seq![c]) < 10,
{
    reveal_with_fuel(digits_value, 2);
    assert(seq![c].drop_last() =~= Seq::<char>::empty());
    assert(seq![c].last() == c);
}

/// A decimal without a point is the whole number its digits spell.
pub proof fn lemma_decimal_of_whole(i: Seq<char>)
    requires
        i.len() > 0,
        all_digits(i),
    ensures
        decimal_of(i) == Some((digits_value(i), 1nat)),
{
    assert forall|j: int| 0 <= j < i.len() implies i[j] != '.' by {
        assert(is_digit(i[j]));
    }
    crate::text::lemma_first_index_unique(i, '.', i.len() as int);
    assert(i.take(i.len() as int) =~= i);
}

/// `i.f` is the fraction (i * 10^|f| + f) / 10^|f|: the integer part is
/// scaled by the denominator and the fraction digits are added.
pub proof fn lemma_decimal_of_point(i: Seq<char>, f: Seq<char>)
    requires
        i.len() > 0,
        f.len() > 0,
        all_digits(i),
        all_digits(f),
    ensures
        decimal_of(i + seq!['.'] + f) == Some(
            (digits_value(i) * pow10(f.len()) + digits_value(f), pow10(f.len())),
        ),
{
    let s = i + seq!['.'] + f;
    assert forall|j: int| 0 <= j < i.len() implies s[j] != '.' by {
        assert(s[j] == i[j]);
        assert(is_digit(i[j]));
    }
    assert(s[i.len() as int] == '.');
    crate::text::lemma_first_index_unique(s, '.', i.len() as int);
    assert(s.take(i.len() as int) =~= i);
    assert(s.skip(i.len() as int + 1) =~= f);
    lemma_digits_value_concat(i, f);
}

/// A whole-number threshold `n`: `amount / total > n` for a positive total.
pub proof fn lemma_ratio_exceeds_whole(amount: int, total: int, n: u32)
    requires
        total > 0,
    ensures
        ratio_exceeds(amount, total, Ratio { num: n, den: 1 }) == (amount > n * total),
{
}

/// Only the value `num / den` of a threshold counts: scaling both parts by the
/// same factor keeps every comparison.
pub proof fn lemma_ratio_exceeds_scaled(amount: int, total: int, n: u32, d: u32, k: u32)
    requires
        total > 0,
        d > 0,
        k > 0,
        k * n <= u32::MAX,
        k * d <= u32::MAX,
    ensures
        ratio_exceeds(amount, total, Ratio { num: (k * n) as u32, den: (k * d) as u32 })
            == ratio_exceeds(amount, total, Ratio { num: n, den: d }),
{
    let kk = k as int;
    let nn = n as int;
    let dd = d as int;
    assert((amount * (kk * dd) > (kk * nn) * total) == (amount * dd > nn * total))
        by (nonlinear_arith)
        requires
            kk > 0,
    ;
}

/// Sending more never stops a quotient from exceeding a threshold.
pub proof fn lemma_ratio_exceeds_monotone(a: int, b: int, total: int, t: Ratio)
    requires
        0 <= a <= b,
        total >= 0,
        ratio_exceeds(a, total, t),
    ensures
        ratio_exceeds(b, total, t),
{
    let dd = t.den as int;
    assert(a * dd <= b * dd) by (nonlinear_arith)
        requires
            a <= b,
            dd >= 0,
    ;
}

/// The progress gap `amount / total - progress / PROGRESS_SCALE` is the
/// quotient `(amount * PROGRESS_SCALE - total * progress) / (total *
/// PROGRESS_SCALE)`, compared with the threshold as `ratio_exceeds` does.
pub proof fn lemma_progress_gap_as_quotient(amount: int, total: int, progress: int, t: Ratio)
    requires
        total > 0,
    ensures
        progress_gap_exceeds(amount, total, progress, t) == ratio_exceeds(
            amount * PROGRESS_SCALE - total * progress,
            total * PROGRESS_SCALE,
            t,
        ),
{
    let s = PROGRESS_SCALE as int;
    let n = t.num as int;
    let d = t.den as int;
    assert(total * s > 0) by (nonlinear_arith)
        requires
            total > 0,
            s == 1_000_000,
    ;
    assert(((amount * s - total * progress) * d > n * (total * s)) == (amount * s * d > total * (n
        * s + progress * d))) by (nonlinear_arith);
}

/// A peer that reports no progress is judged on the share we sent it alone.
pub proof fn lemma_progress_gap_without_progress(amount: int, total: int, t: Ratio)
    requires
        total > 0,
    ensures
        progress_gap_exceeds(amount, total, 0, t) == ratio_exceeds(amount, total, t),
{
    let s = PROGRESS_SCALE as int;
    let n = t.num as int;
    let d = t.den as int;
    assert((amount * s * d > total * (n * s + 0 * d)) == (amount * d > n * total))
        by (nonlinear_arith)
        requires
            s == 1_000_000,
    ;
}

/// Only the value of the threshold counts for the progress gap as well.
pub proof fn lemma_progress_gap_scaled(
    amount: int,
    total: int,
    progress: int,
    n: u32,
    d: u32,
    k: u32,
)
    requires
        total > 0,
        d > 0,
        k > 0,
        k * n <= u32::MAX,
        k * d <= u32::MAX,
    ensures
        progress_gap_exceeds(amount, total, progress, Ratio { num: (k * n) as u32, den: (k * d) as u32 })
            == progress_gap_exceeds(amount, total, progress, Ratio { num: n, den: d }),
{
    lemma_progress_gap_as_quotient(amount, total, progress, Ratio { num: (k * n) as u32, den: (k * d) as u32 });
    lemma_progress_gap_as_quotient(amount, total, progress, Ratio { num: n, den: d });
    assert(total * PROGRESS_SCALE > 0) by (nonlinear_arith)
        requires
            total > 0,
    ;
    lemma_ratio_exceeds_scaled(amount * PROGRESS_SCALE - total * progress, total * PROGRESS_SCALE, n, d, k);
}

/// A peer that reports more progress is never the likelier to be caught.
pub proof fn lemma_progress_gap_monotone(amount: int, total: int, p: int, q: int, t: Ratio)
    requires
        total > 0,
        0 <= p <= q,
        progress_gap_exceeds(amount, total, q, t),
    ensures
        progress_gap_exceeds(amount, total, p, t),
{
    let d = t.den as int;
    assert(total * (p * d) <= total * (q * d)) by (nonlinear_arith)
        requires
            total > 0,
            p <= q,
            d >= 0,
    ;
    assert(total * (t.num * PROGRESS_SCALE + p * d) == total * (t.num * PROGRESS_SCALE) + total * (p * d))
        by (nonlinear_arith);
    assert(total * (t.num * PROGRESS_SCALE + q * d) == total * (t.num * PROGRESS_SCALE) + total * (q * d))
        by (nonlinear_arith);
}

} // verus!
