//! Parser for the human-readable byte sizes the engine CLI prints
//! (`"10MB"`, `"1.5GiB"`, `"1024B"`).
//!
//! The input is trimmed; the leading run of digits and dots is the numeric
//! part, the trimmed remainder the unit. A numeric part with no digit or
//! more than one dot counts as zero. The result is the numeric value times
//! the unit's multiplier, truncated toward zero and saturated at the largest
//! `i64`. All arithmetic is exact: the fractional digits are folded in by
//! integer division, so no rounding beyond the final truncation occurs.

use vstd::prelude::*;
use vstd::string::*;
use vstd::arithmetic::div_mod::{
    lemma_div_denominator, lemma_div_is_ordered, lemma_div_multiples_vanish,
    lemma_div_pos_is_pos, lemma_hoist_over_denominator,
};
use vstd::arithmetic::mul::{
    lemma_mul_inequality, lemma_mul_is_distributive_add_other_way, lemma_mul_nonnegative,
};

verus! {

/// A character with the Unicode `White_Space` property — exactly the set a
/// leading or trailing run of which trimming removes.
pub open spec fn is_space_char(c: char) -> bool {
    ||| '\u{9}' <= c <= '\u{d}'
    ||| c == ' '
    ||| c == '\u{85}'
    ||| c == '\u{a0}'
    ||| c == '\u{1680}'
    ||| '\u{2000}' <= c <= '\u{200a}'
    ||| c == '\u{2028}'
    ||| c == '\u{2029}'
    ||| c == '\u{202f}'
    ||| c == '\u{205f}'
    ||| c == '\u{3000}'
}

/// The sequence with its leading run of whitespace removed.
pub open spec fn trim_start_spec(s: Seq<char>) -> Seq<char>
    decreases s.len(),
{
    if s.len() == 0 {
        s
    } else if is_space_char(s[0]) {
        trim_start_spec(s.drop_first())
    } else {
        s
    }
}

/// The sequence with its trailing run of whitespace removed.
pub open spec fn trim_end_spec(s: Seq<char>) -> Seq<char>
    decreases s.len(),
{
    if s.len() == 0 {
        s
    } else if is_space_char(s[s.len() - 1]) {
        trim_end_spec(s.drop_last())
    } else {
        s
    }
}

/// The sequence with leading and trailing whitespace removed.
pub open spec fn trim_spec(s: Seq<char>) -> Seq<char> {
    trim_end_spec(trim_start_spec(s))
}

proof fn lemma_trim_start_at(s: Seq<char>, k: int)
    requires
        0 <= k <= s.len(),
        forall|j: int| 0 <= j < k ==> is_space_char(#[trigger] s[j]),
        k == s.len() || !is_space_char(s[k]),
    ensures
        trim_start_spec(s) =~= s.subrange(k, s.len() as int),
    decreases k,
{
    if k == 0 {
        if s.len() == 0 {
        } else {
            assert(!is_space_char(s[0]));
        }
        assert(trim_start_spec(s) =~= s.subrange(0, s.len() as int));
    } else {
        assert(is_space_char(s[0]));
        let rest = s.drop_first();
        assert(forall|j: int| 0 <= j < k - 1 ==> is_space_char(#[trigger] rest[j]));
        lemma_trim_start_at(rest, k - 1);
        assert(rest.subrange(k - 1, rest.len() as int) =~= s.subrange(k, s.len() as int));
    }
}

proof fn lemma_trim_end_at(s: Seq<char>, k: int)
    requires
        0 <= k <= s.len(),
        forall|j: int| k <= j < s.len() ==> is_space_char(#[trigger] s[j]),
        k == 0 || !is_space_char(s[k - 1]),
    ensures
        trim_end_spec(s) =~= s.subrange(0, k),
    decreases s.len(),
{
    if k == s.len() {
        if s.len() == 0 {
        } else {
            assert(!is_space_char(s[s.len() - 1]));
        }
        assert(trim_end_spec(s) =~= s.subrange(0, s.len() as int));
    } else {
        assert(is_space_char(s[s.len() - 1]));
        let rest = s.drop_last();
        assert(forall|j: int| k <= j < rest.len() ==> is_space_char(#[trigger] rest[j]));
        lemma_trim_end_at(rest, k);
        assert(rest.subrange(0, k) =~= s.subrange(0, k));
    }
}

/// Whether this character is whitespace in the trimming sense.
pub fn char_is_space(c: char) -> (b: bool)
    ensures
        b == is_space_char(c),
{
    ('\u{9}' <= c && c <= '\u{d}') || c == ' ' || c == '\u{85}' || c == '\u{a0}'
        || c == '\u{1680}' || ('\u{2000}' <= c && c <= '\u{200a}') || c == '\u{2028}'
        || c == '\u{2029}' || c == '\u{202f}' || c == '\u{205f}' || c == '\u{3000}'
}

/// The slice with leading and trailing whitespace removed.
pub fn trim_str(s: &str) -> (r: &str)
    ensures
        r@ =~= trim_spec(s@),
{
    let n = s.unicode_len();
    let mut lo: usize = 0;
    loop
        invariant
            0 <= lo <= n,
            n == s@.len(),
            forall|j: int| 0 <= j < lo ==> is_space_char(#[trigger] s@[j]),
        ensures
            0 <= lo <= n,
            forall|j: int| 0 <= j < lo ==> is_space_char(#[trigger] s@[j]),
            lo == n || !is_space_char(s@[lo as int]),
        decreases n - lo,
    {
        if lo >= n {
            break;
        }
        if !char_is_space(s.get_char(lo)) {
            break;
        }
        lo = lo + 1;
    }
    let mut hi: usize = n;
    loop
        invariant
            lo <= hi <= n,
            n == s@.len(),
            forall|j: int| hi <= j < n ==> is_space_char(#[trigger] s@[j]),
        ensures
            lo <= hi <= n,
            forall|j: int| hi <= j < n ==> is_space_char(#[trigger] s@[j]),
            hi == lo || !is_space_char(s@[hi - 1]),
        decreases hi,
    {
        if hi <= lo {
            break;
        }
        if !char_is_space(s.get_char(hi - 1)) {
            break;
        }
        hi = hi - 1;
    }
    proof {
        lemma_trim_start_at(s@, lo as int);
        let t = s@.subrange(lo as int, n as int);
        if lo == n {
            lemma_trim_end_at(t, 0);
        } else {
            lemma_trim_end_at(t, hi - lo);
        }
        assert(t.subrange(0, hi - lo) =~= s@.subrange(lo as int, hi as int));
    }
    s.substring_char(lo, hi)
}

/// A decimal digit.
pub open spec fn is_digit_char(c: char) -> bool {
    '0' <= c <= '9'
}

/// A character the numeric part may contain: a digit or a dot.
pub open spec fn is_numeric_char(c: char) -> bool {
    is_digit_char(c) || c == '.'
}

/// The value of a decimal digit.
pub open spec fn digit_val(c: char) -> int {
    c as int - '0' as int
}

/// The integer a string of decimal digits denotes.
pub open spec fn digits_val(d: Seq<char>) -> int
    decreases d.len(),
{
    if d.len() == 0 {
        0
    } else {
        digits_val(d.drop_last()) * 10 + digit_val(d.last())
    }
}

/// Ten to the `n`.
pub open spec fn pow10(n: nat) -> int
    decreases n,
{
    if n == 0 {
        1
    } else {
        10 * pow10((n - 1) as nat)
    }
}

/// How many dots the numeric part holds.
pub open spec fn dot_count(d: Seq<char>) -> int
    decreases d.len(),
{
    if d.len() == 0 {
        0
    } else {
        dot_count(d.drop_last()) + if d.last() == '.' {
            1int
        } else {
            0int
        }
    }
}

/// Index of the first dot, or the length when there is none.
pub open spec fn dot_pos(d: Seq<char>) -> int
    decreases d.len(),
{
    if d.len() == 0 {
        0
    } else if d[0] == '.' {
        0
    } else {
        1 + dot_pos(d.drop_first())
    }
}

/// A numeric part denotes a number exactly when it holds at least one digit
/// and at most one dot.
pub open spec fn valid_number(d: Seq<char>) -> bool {
    &&& d.len() > 0
    &&& (forall|i: int| 0 <= i < d.len() ==> is_numeric_char(#[trigger] d[i]))
    &&& dot_count(d) <= 1
    &&& d.len() - dot_count(d) >= 1
}

/// The digits before the dot.
pub open spec fn int_part(d: Seq<char>) -> Seq<char> {
    d.subrange(0, dot_pos(d))
}

/// The digits after the dot; empty when there is no dot.
pub open spec fn frac_part(d: Seq<char>) -> Seq<char> {
    if dot_pos(d) < d.len() {
        d.subrange(dot_pos(d) + 1, d.len() as int)
    } else {
        Seq::empty()
    }
}

/// The numeric part times the multiplier, truncated toward zero: the whole
/// digits contribute in full, the fractional digits through one exact
/// integer division by the matching power of ten.
pub open spec fn scaled_size(d: Seq<char>, m: int) -> int {
    digits_val(int_part(d)) * m + digits_val(frac_part(d)) * m / pow10(frac_part(d).len())
}

/// Clamp to the largest `i64`, mirroring a truncating cast of an oversized
/// value.
pub open spec fn saturate_to_i64(x: int) -> int {
    if x > i64::MAX {
        i64::MAX as int
    } else {
        x
    }
}

/// Length of the leading run of digits and dots.
pub open spec fn num_prefix_len(s: Seq<char>) -> int
    decreases s.len(),
{
    if s.len() == 0 {
        0
    } else if !is_numeric_char(s[0]) {
        0
    } else {
        1 + num_prefix_len(s.drop_first())
    }
}

/// The unit's multiplier: decimal prefixes scale by powers of a thousand,
/// binary prefixes by powers of 1024, and anything unrecognized — or no
/// unit at all — by one. Only the spellings the engine CLI emits are
/// recognized, so the match on case is deliberate and exact.
pub open spec fn multiplier_of(u: Seq<char>) -> int {
    if u.len() == 1 && u[0] == 'B' {
        1
    } else if u.len() == 2 && u[1] == 'B' && (u[0] == 'k' || u[0] == 'K') {
        1000
    } else if u.len() == 2 && u[0] == 'k' && u[1] == 'b' {
        1000
    } else if u.len() == 2 && (u[0] == 'M' && u[1] == 'B' || u[0] == 'm' && u[1] == 'b') {
        1000000
    } else if u.len() == 2 && (u[0] == 'G' && u[1] == 'B' || u[0] == 'g' && u[1] == 'b') {
        1000000000
    } else if u.len() == 2 && (u[0] == 'T' && u[1] == 'B' || u[0] == 't' && u[1] == 'b') {
        1000000000000
    } else if u.len() == 3 && u[0] == 'K' && (u[1] == 'i' || u[1] == 'I') && u[2] == 'B' {
        1024
    } else if u.len() == 3 && u[0] == 'M' && (u[1] == 'i' || u[1] == 'I') && u[2] == 'B' {
        1048576
    } else if u.len() == 3 && u[0] == 'G' && (u[1] == 'i' || u[1] == 'I') && u[2] == 'B' {
        1073741824
    } else if u.len() == 3 && u[0] == 'T' && (u[1] == 'i' || u[1] == 'I') && u[2] == 'B' {
        1099511627776
    } else {
        1
    }
}

proof fn lemma_pow10_pos(n: nat)
    ensures
        pow10(n) >= 1,
    decreases n,
{
    if n > 0 {
        lemma_pow10_pos((n - 1) as nat);
    }
}

proof fn lemma_digits_val_bound(d: Seq<char>)
    requires
        forall|i: int| 0 <= i < d.len() ==> is_digit_char(#[trigger] d[i]),
    ensures
        0 <= digits_val(d) < pow10(d.len() as nat),
    decreases d.len(),
{
    if d.len() > 0 {
        let dl = d.drop_last();
        lemma_digits_val_bound(dl);
        assert(digit_val(d.last()) <= 9);
        assert(digits_val(dl) * 10 <= (pow10((d.len() - 1) as nat) - 1) * 10) by {
            lemma_mul_inequality(digits_val(dl), pow10((d.len() - 1) as nat) - 1, 10);
        }
        assert(digits_val(dl) * 10 >= 0) by {
            lemma_mul_nonnegative(digits_val(dl), 10);
        }
    }
}

proof fn lemma_digits_first_split(d: Seq<char>)
    requires
        d.len() >= 1,
        forall|i: int| 0 <= i < d.len() ==> is_digit_char(#[trigger] d[i]),
    ensures
        digits_val(d) == digit_val(d[0]) * pow10((d.len() - 1) as nat) + digits_val(
            d.drop_first(),
        ),
    decreases d.len(),
{
    if d.len() == 1 {
        assert(d.drop_last() =~= Seq::empty());
        assert(d.drop_first() =~= Seq::empty());
    } else {
        let dl = d.drop_last();
        let df = d.drop_first();
        lemma_digits_first_split(dl);
        assert(dl.drop_first() =~= df.drop_last());
        assert(dl[0] == d[0]);
        assert(df.last() == d.last());
        // digits_val(d) == (digit_val(d[0]) * pow10(len-2) + digits_val(df.drop_last())) * 10
        //     + digit_val(d.last())
        assert((digit_val(d[0]) * pow10((d.len() - 2) as nat) + digits_val(df.drop_last())) * 10
            == digit_val(d[0]) * pow10((d.len() - 2) as nat) * 10 + digits_val(df.drop_last())
            * 10) by {
            lemma_mul_is_distributive_add_other_way(
                10,
                digit_val(d[0]) * pow10((d.len() - 2) as nat),
                digits_val(df.drop_last()),
            );
        }
        assert(digit_val(d[0]) * pow10((d.len() - 2) as nat) * 10 == digit_val(d[0]) * pow10(
            (d.len() - 1) as nat,
        )) by (nonlinear_arith)
            requires
                pow10((d.len() - 1) as nat) == 10 * pow10((d.len() - 2) as nat),
        ;
    }
}

/// Folding the fractional digits in from the right: each step adds one
/// digit's contribution and divides by ten, floors included.
pub open spec fn frac_fold(fr: Seq<char>, m: int) -> int
    decreases fr.len(),
{
    if fr.len() == 0 {
        0
    } else {
        (digit_val(fr[0]) * m + frac_fold(fr.drop_first(), m)) / 10
    }
}

proof fn lemma_frac_fold_eval(fr: Seq<char>, m: int)
    requires
        m >= 1,
        forall|i: int| 0 <= i < fr.len() ==> is_digit_char(#[trigger] fr[i]),
    ensures
        frac_fold(fr, m) == digits_val(fr) * m / pow10(fr.len() as nat),
        0 <= frac_fold(fr, m) <= m,
    decreases fr.len(),
{
    if fr.len() == 0 {
        assert(digits_val(fr) * m == 0) by (nonlinear_arith)
            requires
                digits_val(fr) == 0,
        ;
    } else {
        let a = digit_val(fr[0]);
        let rest = fr.drop_first();
        let r = digits_val(rest);
        let c = pow10((fr.len() - 1) as nat);
        lemma_pow10_pos((fr.len() - 1) as nat);
        lemma_digits_val_bound(rest);
        lemma_frac_fold_eval(rest, m);
        let q = r * m / c;
        lemma_digits_first_split(fr);
        assert(digits_val(fr) == a * c + r);
        // (a*c + r) * m == (a*m)*c + r*m
        assert((a * c + r) * m == a * m * c + r * m) by (nonlinear_arith);
        lemma_mul_nonnegative(a, m);
        lemma_mul_nonnegative(r, m);
        lemma_mul_nonnegative(a * m, c);
        // hoist: r*m/c + a*m == (r*m + (a*m)*c) / c
        lemma_hoist_over_denominator(r * m, a * m, c as nat);
        assert(q + a * m == (r * m + a * m * c) / c);
        // denominator: ((a*m*c + r*m) / c) / 10 == (a*m*c + r*m) / (c * 10)
        lemma_div_denominator(a * m * c + r * m, c, 10);
        assert(c * 10 == pow10(fr.len() as nat)) by (nonlinear_arith)
            requires
                pow10(fr.len() as nat) == 10 * c,
        ;
        assert(frac_fold(fr, m) == (a * m + q) / 10);
        assert((a * m + q) / 10 == digits_val(fr) * m / pow10(fr.len() as nat));
        // bound: a*m + q <= 9*m + m == 10*m, so the quotient is at most m
        assert(a * m <= 9 * m) by (nonlinear_arith)
            requires
                0 <= a <= 9,
                m >= 1,
        ;
        lemma_div_is_ordered(a * m + q, 10 * m, 10);
        assert(10 * m / 10 == m) by {
            lemma_div_multiples_vanish(m, 10);
        }
        lemma_div_pos_is_pos(a * m + q, 10);
    }
}

proof fn lemma_num_prefix_at(s: Seq<char>, k: int)
    requires
        0 <= k <= s.len(),
        forall|j: int| 0 <= j < k ==> is_numeric_char(#[trigger] s[j]),
        k == s.len() || !is_numeric_char(s[k]),
    ensures
        num_prefix_len(s) == k,
    decreases k,
{
    if k == 0 {
    } else {
        let rest = s.drop_first();
        assert(forall|j: int| 0 <= j < k - 1 ==> is_numeric_char(#[trigger] rest[j]));
        lemma_num_prefix_at(rest, k - 1);
    }
}

proof fn lemma_dot_pos_at(d: Seq<char>, p: int)
    requires
        0 <= p <= d.len(),
        forall|j: int| 0 <= j < p ==> #[trigger] d[j] != '.',
        p == d.len() || d[p] == '.',
    ensures
        dot_pos(d) == p,
    decreases p,
{
    if p == 0 {
    } else {
        let rest = d.drop_first();
        assert(forall|j: int| 0 <= j < p - 1 ==> #[trigger] rest[j] != '.');
        lemma_dot_pos_at(rest, p - 1);
    }
}

/// What `parse_docker_size` returns: zero for an empty or numberless input,
/// otherwise the scaled value clamped to `i64`.
pub open spec fn parse_size_spec(s: Seq<char>) -> int {
    let t = trim_spec(s);
    if t.len() == 0 {
        0
    } else {
        let d = t.subrange(0, num_prefix_len(t));
        let u = trim_spec(t.subrange(num_prefix_len(t), t.len() as int));
        if valid_number(d) {
            saturate_to_i64(scaled_size(d, multiplier_of(u)))
        } else {
            0
        }
    }
}

/// The multiplier the unit calls for.
pub fn unit_multiplier(u: &str) -> (m: u64)
    ensures
        m as int == multiplier_of(u@),
        1 <= m <= 1099511627776,
{
    let n = u.unicode_len();
    if n == 1 {
        let c0 = u.get_char(0);
        if c0 == 'B' {
            1
        } else {
            1
        }
    } else if n == 2 {
        let c0 = u.get_char(0);
        let c1 = u.get_char(1);
        if c1 == 'B' && (c0 == 'k' || c0 == 'K') || c0 == 'k' && c1 == 'b' {
            1000
        } else if c0 == 'M' && c1 == 'B' || c0 == 'm' && c1 == 'b' {
            1000000
        } else if c0 == 'G' && c1 == 'B' || c0 == 'g' && c1 == 'b' {
            1000000000
        } else if c0 == 'T' && c1 == 'B' || c0 == 't' && c1 == 'b' {
            1000000000000
        } else {
            1
        }
    } else if n == 3 {
        let c0 = u.get_char(0);
        let c1 = u.get_char(1);
        let c2 = u.get_char(2);
        if (c1 == 'i' || c1 == 'I') && c2 == 'B' {
            if c0 == 'K' {
                1024
            } else if c0 == 'M' {
                1048576
            } else if c0 == 'G' {
                1073741824
            } else if c0 == 'T' {
                1099511627776
            } else {
                1
            }
        } else {
            1
        }
    } else {
        1
    }
}

/// Parse a human-readable size into bytes. The result equals the numeric
/// part times the unit's multiplier, truncated toward zero and clamped to
/// `i64`; inputs without a parsable number yield zero.
pub fn parse_docker_size(s: &str) -> (r: i64)
    ensures
        r as int == parse_size_spec(s@),
        r >= 0,
{
    let t = trim_str(s);
    let n = t.unicode_len();
    if n == 0 {
        return 0;
    }
    // Leading run of digits and dots.
    let mut k: usize = 0;
    loop
        invariant
            0 <= k <= n,
            n == t@.len(),
            forall|j: int| 0 <= j < k ==> is_numeric_char(#[trigger] t@[j]),
        ensures
            0 <= k <= n,
            forall|j: int| 0 <= j < k ==> is_numeric_char(#[trigger] t@[j]),
            k == n || !is_numeric_char(t@[k as int]),
        decreases n - k,
    {
        if k >= n {
            break;
        }
        let c = t.get_char(k);
        if !(('0' <= c && c <= '9') || c == '.') {
            break;
        }
        k = k + 1;
    }
    proof {
        lemma_num_prefix_at(t@, k as int);
    }
    let ghost d = t@.subrange(0, k as int);
    // Locate the first dot and count the dots.
    let mut p: usize = k;
    let mut dots: usize = 0;
    for i in 0..k
        invariant
            k <= n,
            n == t@.len(),
            d == t@.subrange(0, k as int),
            forall|j: int| 0 <= j < k ==> is_numeric_char(#[trigger] t@[j]),
            dots == dot_count(d.subrange(0, i as int)),
            dots <= i,
            dots == 0 ==> p == k && (forall|j: int| 0 <= j < i ==> #[trigger] d[j] != '.'),
            dots >= 1 ==> p < i && d[p as int] == '.' && (forall|j: int|
                0 <= j < p ==> #[trigger] d[j] != '.'),
            dots == 1 ==> (forall|j: int| 0 <= j < i && j != p ==> #[trigger] d[j] != '.'),
    {
        proof {
            assert(d.subrange(0, i + 1).drop_last() =~= d.subrange(0, i as int));
        }
        let c = t.get_char(i);
        if c == '.' {
            if dots == 0 {
                p = i;
            }
            dots = dots + 1;
        }
    }
    proof {
        assert(d.subrange(0, k as int) =~= d);
    }
    if !(k > 0 && dots <= 1 && k - dots >= 1) {
        proof {
            if k == 0 {
                assert(d =~= Seq::empty());
            }
        }
        return 0;
    }
    proof {
        lemma_dot_pos_at(d, p as int);
    }
    let ghost ip = int_part(d);
    let ghost fp = frac_part(d);
    proof {
        assert(forall|i: int|
            0 <= i < ip.len() ==> is_numeric_char(#[trigger] ip[i]) && ip[i] != '.');
        if dots == 1 {
            assert(forall|i: int|
                0 <= i < fp.len() ==> is_numeric_char(#[trigger] fp[i]) && fp[i] != '.');
        } else {
            assert(fp =~= Seq::empty());
        }
    }
    // The unit: the trimmed remainder after the numeric part.
    let unit = trim_str(t.substring_char(k, n));
    let m = unit_multiplier(unit);
    // Whole digits, left to right, saturating far above any i64.
    let mut wi: u128 = 0;
    let mut wi_ovf = false;
    let pe: usize = p;
    for i in 0..pe
        invariant
            pe == p <= k <= n,
            n == t@.len(),
            d == t@.subrange(0, k as int),
            ip == int_part(d),
            ip =~= d.subrange(0, p as int),
            forall|j: int| 0 <= j < ip.len() ==> is_digit_char(#[trigger] ip[j]),
            forall|j: int| 0 <= j < k ==> is_numeric_char(#[trigger] t@[j]),
            !wi_ovf ==> wi as int == digits_val(ip.subrange(0, i as int)),
            wi_ovf ==> digits_val(ip.subrange(0, i as int)) > u128::MAX,
    {
        proof {
            assert(ip.subrange(0, i + 1).drop_last() =~= ip.subrange(0, i as int));
            assert(ip[i as int] == t@[i as int]);
        }
        let c = t.get_char(i);
        let dv: u128 = ((c as u32) - 48) as u128;
        assert(dv as int == digit_val(ip[i as int]));
        if !wi_ovf {
            match wi.checked_mul(10) {
                Some(w10) => {
                    match w10.checked_add(dv) {
                        Some(w) => {
                            wi = w;
                        },
                        None => {
                            wi_ovf = true;
                        },
                    }
                },
                None => {
                    proof {
                        assert(wi * 10 >= wi) by (nonlinear_arith)
                            requires
                                wi >= 0,
                        ;
                    }
                    wi_ovf = true;
                },
            }
        } else {
            proof {
                let prev = digits_val(ip.subrange(0, i as int));
                assert(prev * 10 >= prev) by (nonlinear_arith)
                    requires
                        prev >= 0,
                ;
                lemma_digits_val_bound(ip.subrange(0, i as int));
            }
        }
    }
    proof {
        assert(ip.subrange(0, pe as int) =~= ip);
    }
    // Fractional digits, right to left: each step folds one digit in and
    // divides by ten, which keeps every intermediate value at most the
    // multiplier.
    let mut tacc: u64 = 0;
    let fstart: usize = if p < k { p + 1 } else { k };
    let mut j: usize = k;
    proof {
        if p < k {
            assert(fp =~= d.subrange(p + 1, k as int));
        }
        assert(fp.subrange(k - fstart, fp.len() as int) =~= Seq::empty());
    }
    while j > fstart
        invariant
            fstart <= j <= k <= n,
            fstart == if p < k {
                p + 1int
            } else {
                k as int
            },
            p <= k,
            n == t@.len(),
            d == t@.subrange(0, k as int),
            fp == frac_part(d),
            fp.len() == k - fstart,
            1 <= m <= 1099511627776,
            forall|i: int| 0 <= i < fp.len() ==> is_digit_char(#[trigger] fp[i]),
            forall|i: int| 0 <= i < fp.len() ==> fp[i] == t@[fstart + i],
            tacc as int == frac_fold(fp.subrange(j - fstart, fp.len() as int), m as int),
            tacc <= m,
        decreases j,
    {
        let c = t.get_char(j - 1);
        proof {
            assert(t@[j - 1] == fp[j - 1 - fstart]);
            assert(fp.subrange(j - 1 - fstart, fp.len() as int).drop_first() =~= fp.subrange(
                j - fstart,
                fp.len() as int,
            ));
        }
        let dv: u64 = ((c as u32) - 48) as u64;
        assert(dv <= 9);
        proof {
            assert(dv as int * m as int + tacc as int <= 10 * 1099511627776int) by (
            nonlinear_arith)
                requires
                    0 <= dv <= 9,
                    1 <= m <= 1099511627776,
                    0 <= tacc <= m,
            ;
        }
        let num: u64 = dv * m + tacc;
        proof {
            assert(num as int <= 10 * m) by (nonlinear_arith)
                requires
                    0 <= dv <= 9,
                    m >= 1,
                    num == dv * m + tacc,
                    0 <= tacc <= m,
            ;
            lemma_div_is_ordered(num as int, 10 * m, 10);
            lemma_div_multiples_vanish(m as int, 10);
        }
        tacc = num / 10;
        j = j - 1;
    }
    proof {
        assert(fp.subrange(0, fp.len() as int) =~= fp);
        lemma_frac_fold_eval(fp, m as int);
        lemma_digits_val_bound(ip);
        lemma_pow10_pos(fp.len() as nat);
    }
    // Combine, saturating exactly where the true value tops i64::MAX.
    let ghost exact = scaled_size(d, m as int);
    proof {
        assert(exact == digits_val(ip) * m + tacc);
        lemma_mul_nonnegative(digits_val(ip), m as int);
    }
    if wi_ovf {
        proof {
            assert(digits_val(ip) * m >= digits_val(ip)) by (nonlinear_arith)
                requires
                    m >= 1,
                    digits_val(ip) >= 0,
            ;
        }
        return i64::MAX;
    }
    match wi.checked_mul(m as u128) {
        Some(whole) => {
            match whole.checked_add(tacc as u128) {
                Some(total) => {
                    if total > i64::MAX as u128 {
                        i64::MAX
                    } else {
                        total as i64
                    }
                },
                None => i64::MAX,
            }
        },
        None => {
            proof {
                assert(wi as int * m as int > u128::MAX ==> exact > i64::MAX);
            }
            i64::MAX
        },
    }
}

} // verus!

