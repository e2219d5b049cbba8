//! Decimal numerals: parsing sensor states into a signed fixed-point
//! number with three fractional digits (thousandths), and rendering such
//! numbers back into display strings.
//!
//! The numeric domain of the library is plain decimal numerals
//! (`[+-]? digits [. digits]?`) whose integer part fits below 10^12;
//! fractional digits beyond the third are ignored. Anything else (empty,
//! exponent forms, stray characters) is treated as a non-numeric state.

use vstd::prelude::*;

verus! {

/// Largest accepted integer part of a numeral.
pub const MAX_INT_PART: u64 = 1_000_000_000_000;

/// Largest thousandths magnitude: `MAX_INT_PART * 1000 + 999`.
pub const MAX_MILLI: u64 = 1_000_000_000_000_999;

/// A signed fixed-point number counted in thousandths. Zero is never
/// negative.
#[derive(Clone, Copy, PartialEq, Eq, Structural, Debug)]
pub struct Dec {
    pub neg: bool,
    pub milli: u64,
}

impl Dec {
    pub open spec fn wf(self) -> bool {
        &&& self.milli <= MAX_MILLI
        &&& self.neg ==> self.milli > 0
    }

    /// The value in thousandths.
    pub open spec fn val(self) -> int {
        if self.neg {
            -(self.milli as int)
        } else {
            self.milli as int
        }
    }
}

pub open spec fn is_digit(c: char) -> bool {
    48 <= c as int <= 57
}

pub open spec fn digit_val(c: char) -> int {
    c as int - 48
}

pub open spec fn all_digits(s: Seq<char>) -> bool {
    forall|k: int| 0 <= k < s.len() ==> is_digit(#[trigger] s[k])
}

/// The value of a digit string, most significant first.
pub open spec fn digits_val(s: Seq<char>) -> int
    decreases s.len(),
{
    if s.len() == 0 {
        0
    } else {
        digits_val(s.drop_last()) * 10 + digit_val(s.last())
    }
}

/// Index of the first `'.'`, or the length when there is none.
pub open spec fn first_dot(s: Seq<char>) -> int
    decreases s.len(),
{
    if s.len() == 0 {
        0
    } else if s[0] == '.' {
        0
    } else {
        1 + first_dot(s.drop_first())
    }
}

/// Sign stripped off the front: `(negative, rest)`.
pub open spec fn split_sign(s: Seq<char>) -> (bool, Seq<char>) {
    if s.len() > 0 && s[0] == '-' {
        (true, s.drop_first())
    } else if s.len() > 0 && s[0] == '+' {
        (false, s.drop_first())
    } else {
        (false, s)
    }
}

pub open spec fn int_part(t: Seq<char>) -> Seq<char> {
    t.take(first_dot(t))
}

pub open spec fn frac_part(t: Seq<char>) -> Seq<char> {
    if first_dot(t) < t.len() {
        t.skip(first_dot(t) + 1)
    } else {
        Seq::empty()
    }
}

/// An unsigned decimal numeral: digits around at most one dot, with at
/// least one digit.
pub open spec fn valid_number(t: Seq<char>) -> bool {
    &&& all_digits(int_part(t))
    &&& all_digits(frac_part(t))
    &&& int_part(t).len() + frac_part(t).len() >= 1
}

/// The thousandths contributed by a fraction-digit string (first three
/// digits; the rest are ignored).
pub open spec fn frac_milli(fp: Seq<char>) -> int {
    if fp.len() >= 3 {
        digits_val(fp.take(3))
    } else if fp.len() == 2 {
        digits_val(fp) * 10
    } else if fp.len() == 1 {
        digits_val(fp) * 100
    } else {
        0
    }
}

/// The unsigned thousandths magnitude of a valid numeral.
pub open spec fn magnitude_milli(t: Seq<char>) -> int {
    digits_val(int_part(t)) * 1000 + frac_milli(frac_part(t))
}

/// What parsing a state string yields: the fixed-point value of a plain
/// decimal numeral in the supported range, or nothing.
pub open spec fn spec_parse_decimal(s: Seq<char>) -> Option<Dec> {
    let neg = split_sign(s).0;
    let t = split_sign(s).1;
    if valid_number(t) && digits_val(int_part(t)) <= MAX_INT_PART {
        let m = magnitude_milli(t);
        Some(Dec { neg: neg && m != 0, milli: m as u64 })
    } else {
        None
    }
}

proof fn lemma_digits_val_nonneg(s: Seq<char>)
    requires
        all_digits(s),
    ensures
        digits_val(s) >= 0,
    decreases s.len(),
{
    if s.len() > 0 {
        assert(all_digits(s.drop_last()));
        lemma_digits_val_nonneg(s.drop_last());
        assert(digits_val(s.drop_last()) * 10 >= 0) by (nonlinear_arith)
            requires
                digits_val(s.drop_last()) >= 0,
        ;
    }
}

/// Appending digits never decreases the value.
proof fn lemma_digits_val_prefix(s: Seq<char>, m: int)
    requires
        all_digits(s),
        0 <= m <= s.len(),
    ensures
        digits_val(s) >= digits_val(s.take(m)),
    decreases s.len() - m,
{
    if m < s.len() {
        lemma_digits_val_prefix(s, m + 1);
        assert(s.take(m + 1).drop_last() =~= s.take(m));
        assert(all_digits(s.take(m)));
        lemma_digits_val_nonneg(s.take(m));
        assert(digits_val(s.take(m + 1)) == digits_val(s.take(m)) * 10 + digit_val(s[m]));
        assert(digits_val(s.take(m)) * 10 >= digits_val(s.take(m))) by (nonlinear_arith)
            requires
                digits_val(s.take(m)) >= 0,
        ;
    } else {
        assert(s.take(m) =~= s);
    }
}

/// `first_dot` is the index of the first dot, or the length.
proof fn lemma_first_dot_at(t: Seq<char>, d: int)
    requires
        0 <= d <= t.len(),
        forall|k: int| 0 <= k < d ==> t[k] != '.',
        d < t.len() ==> t[d] == '.',
    ensures
        first_dot(t) == d,
    decreases d,
{
    if t.len() == 0 {
    } else if d == 0 {
    } else {
        assert(t[0] != '.');
        assert forall|k: int| 0 <= k < d - 1 implies t.drop_first()[k] != '.' by {
            assert(t.drop_first()[k] == t[k + 1]);
        }
        assert(d - 1 < t.drop_first().len() ==> t.drop_first()[d - 1] == t[d]);
        lemma_first_dot_at(t.drop_first(), d - 1);
    }
}

/// Scan forward from `from` to the first non-digit character.
fn scan_digits(s: &str, from: usize) -> (r: usize)
    requires
        from <= s@.len(),
    ensures
        from <= r <= s@.len(),
        forall|k: int| from <= k < r ==> is_digit(#[trigger] s@[k]),
        r < s@.len() ==> !is_digit(s@[r as int]),
{
    let n = s.unicode_len();
    let mut i = from;
    while i < n
        invariant
            from <= i <= n,
            n == s@.len(),
            forall|k: int| from <= k < i ==> is_digit(#[trigger] s@[k]),
        decreases n - i,
    {
        let c = s.get_char(i);
        let u = c as u32;
        if !(48 <= u && u <= 57) {
            return i;
        }
        i = i + 1;
    }
    i
}

/// The value of the digit range `[from, to)` of `s`, when it is at most
/// `MAX_INT_PART`.
fn digits_value_capped(s: &str, from: usize, to: usize) -> (r: Option<u64>)
    requires
        from <= to <= s@.len(),
        forall|k: int| from <= k < to ==> is_digit(#[trigger] s@[k]),
    ensures
        match r {
            Some(v) => v == digits_val(s@.subrange(from as int, to as int)) && v <= MAX_INT_PART,
            None => digits_val(s@.subrange(from as int, to as int)) > MAX_INT_PART,
        },
{
    let ghost whole = s@.subrange(from as int, to as int);
    proof {
        assert(all_digits(whole));
    }
    let mut acc: u64 = 0;
    let mut i = from;
    while i < to
        invariant
            from <= i <= to <= s@.len(),
            forall|k: int| from <= k < to ==> is_digit(#[trigger] s@[k]),
            whole == s@.subrange(from as int, to as int),
            acc <= MAX_INT_PART,
            acc == digits_val(whole.take(i - from)),
        decreases to - i,
    {
        let c = s.get_char(i);
        let d: u64 = (c as u32 as u64) - 48;
        proof {
            assert(whole[i - from] == s@[i as int]);
            assert(whole.take(i - from + 1).drop_last() =~= whole.take(i - from));
        }
        let next: u64 = acc * 10 + d;
        if next > MAX_INT_PART {
            proof {
                assert(digits_val(whole.take(i - from + 1)) == next);
                lemma_digits_val_prefix(whole, i - from + 1);
            }
            return None;
        }
        acc = next;
        i = i + 1;
    }
    proof {
        assert(whole.take(to - from) =~= whole);
    }
    Some(acc)
}

/// Parse a state string as a plain decimal numeral.
#[verifier::rlimit(100)]
pub fn parse_decimal(s: &str) -> (r: Option<Dec>)
    ensures
        r == spec_parse_decimal(s@),
        r is Some ==> r.unwrap().wf(),
{
    let n = s.unicode_len();
    let ghost sv = s@;
    let mut i: usize = 0;
    let mut neg = false;
    if n > 0 {
        let c0 = s.get_char(0);
        if c0 == '-' {
            neg = true;
            i = 1;
        } else if c0 == '+' {
            i = 1;
        }
    }
    let ghost sl = i as int;
    let ghost t = split_sign(sv).1;
    proof {
        assert(neg == split_sign(sv).0);
        assert(t =~= sv.skip(sl));
    }
    // Integer digits.
    let ip_end = scan_digits(s, i);
    // Optional dot and fraction digits.
    let mut fp_start = ip_end;
    let mut fp_end = ip_end;
    let mut has_dot = false;
    if ip_end < n {
        if s.get_char(ip_end) == '.' {
            has_dot = true;
            fp_start = ip_end + 1;
            fp_end = scan_digits(s, fp_start);
        }
    }
    proof {
        if has_dot {
            lemma_first_dot_at(t, ip_end - sl);
        }
    }
    if !has_dot && ip_end < n {
        // A non-digit, non-dot character ends the integer part: invalid.
        proof {
            assert(forall|k: int| 0 <= k < ip_end - sl ==> t[k] != '.');
            assert(t[ip_end - sl] != '.');
            assert(forall|k: int| 0 <= k < ip_end + 1 - sl ==> t[k] != '.');
            lemma_first_dot_lb(t, ip_end + 1 - sl);
            lemma_first_dot_le_len(t);
            assert(int_part(t).len() == first_dot(t));
            assert(int_part(t)[ip_end - sl] == t[ip_end - sl]);
            assert(t[ip_end - sl] == sv[ip_end as int]);
            assert(!is_digit(int_part(t)[ip_end - sl]));
            assert(!all_digits(int_part(t)));
        }
        return None;
    }
    if has_dot && fp_end < n {
        // Junk after the fraction digits: invalid.
        proof {
            assert(frac_part(t) =~= sv.skip(fp_start as int));
            assert(frac_part(t)[fp_end - fp_start] == sv[fp_end as int]);
            assert(!all_digits(frac_part(t)));
        }
        return None;
    }
    if ip_end == i && fp_end == fp_start {
        // No digits at all: invalid.
        proof {
            if !has_dot {
                lemma_first_dot_at(t, ip_end - sl);
                assert(int_part(t).len() == 0);
                assert(frac_part(t).len() == 0);
            } else {
                assert(frac_part(t) =~= sv.skip(fp_start as int));
            }
        }
        return None;
    }
    proof {
        if !has_dot {
            lemma_first_dot_at(t, ip_end - sl);
        }
        assert(int_part(t) =~= sv.subrange(sl, ip_end as int));
        if has_dot {
            assert(frac_part(t) =~= sv.subrange(fp_start as int, fp_end as int));
        } else {
            assert(frac_part(t) =~= Seq::<char>::empty());
            assert(frac_part(t) =~= sv.subrange(fp_start as int, fp_end as int));
        }
        assert(all_digits(int_part(t)));
        assert(all_digits(frac_part(t)));
    }
    let int_val = match digits_value_capped(s, i, ip_end) {
        Some(v) => v,
        None => {
            return None;
        },
    };
    let fp_len = fp_end - fp_start;
    let frac: u64 = if fp_len >= 3 {
        let d1 = (s.get_char(fp_start) as u32 as u64) - 48;
        let d2 = (s.get_char(fp_start + 1) as u32 as u64) - 48;
        let d3 = (s.get_char(fp_start + 2) as u32 as u64) - 48;
        proof {
            lemma_digits3_prefix(frac_part(t));
        }
        d1 * 100 + d2 * 10 + d3
    } else if fp_len == 2 {
        let d1 = (s.get_char(fp_start) as u32 as u64) - 48;
        let d2 = (s.get_char(fp_start + 1) as u32 as u64) - 48;
        proof {
            lemma_digits2(frac_part(t));
        }
        d1 * 100 + d2 * 10
    } else if fp_len == 1 {
        let d1 = (s.get_char(fp_start) as u32 as u64) - 48;
        proof {
            lemma_digits1(frac_part(t));
        }
        d1 * 100
    } else {
        0
    };
    let m: u64 = int_val * 1000 + frac;
    let result = Dec { neg: neg && m != 0, milli: m };
    proof {
        assert(valid_number(t));
        assert(m == magnitude_milli(t));
    }
    Some(result)
}

/// No dot among the first `d` characters bounds `first_dot` from below.
proof fn lemma_first_dot_lb(t: Seq<char>, d: int)
    requires
        0 <= d <= t.len(),
        forall|k: int| 0 <= k < d ==> t[k] != '.',
    ensures
        first_dot(t) >= d,
    decreases d,
{
    lemma_first_dot_le_len(t);
    if d > 0 {
        assert(t[0] != '.');
        assert forall|k: int| 0 <= k < d - 1 implies t.drop_first()[k] != '.' by {
            assert(t.drop_first()[k] == t[k + 1]);
        }
        lemma_first_dot_lb(t.drop_first(), d - 1);
        assert(first_dot(t) == 1 + first_dot(t.drop_first()));
    }
}

/// `first_dot` is always a position within the string, or its length.
proof fn lemma_first_dot_le_len(t: Seq<char>)
    ensures
        0 <= first_dot(t) <= t.len(),
    decreases t.len(),
{
    if t.len() > 0 && t[0] != '.' {
        lemma_first_dot_le_len(t.drop_first());
    }
}

/// The digit character for `0 <= n <= 9`.
pub open spec fn digit_char(n: int) -> char {
    (48 + n) as char
}

/// Decimal digits of a nonnegative number, most significant first.
pub open spec fn dec_digits(n: int) -> Seq<char>
    decreases n,
{
    if n < 10 {
        seq![digit_char(n)]
    } else {
        dec_digits(n / 10).push(digit_char(n % 10))
    }
}

/// Digits with a leading minus sign for negative values.
pub open spec fn int_chars(v: int) -> Seq<char> {
    if v < 0 {
        seq!['-'] + dec_digits(-v)
    } else {
        dec_digits(v)
    }
}

/// The value rounded to whole units, half away from zero.
pub open spec fn spec_round_units(d: Dec) -> int {
    if d.neg {
        -((d.milli + 500) / 1000)
    } else {
        (d.milli + 500) / 1000
    }
}

/// The value rendered with exactly one fractional digit, rounded half
/// away from zero.
pub open spec fn one_dec_chars(d: Dec) -> Seq<char> {
    let deci = (d.milli + 50) / 100;
    (if d.neg {
        seq!['-']
    } else {
        Seq::<char>::empty()
    }) + dec_digits(deci / 10) + seq!['.', digit_char(deci % 10)]
}

/// The value rendered with no fractional digit when it is whole, else with
/// one rounded fractional digit.
pub open spec fn auto_chars(d: Dec) -> Seq<char> {
    if d.milli % 1000 == 0 {
        (if d.neg {
            seq!['-']
        } else {
            Seq::<char>::empty()
        }) + dec_digits(d.milli as int / 1000)
    } else {
        one_dec_chars(d)
    }
}

/// The value rendered exactly: whole part, then the fractional digits with
/// trailing zeros dropped.
pub open spec fn plain_chars(d: Dec) -> Seq<char> {
    let rem = d.milli as int % 1000;
    (if d.neg {
        seq!['-']
    } else {
        Seq::<char>::empty()
    }) + dec_digits(d.milli as int / 1000) + (if rem == 0 {
        Seq::<char>::empty()
    } else if rem % 100 == 0 {
        seq!['.', digit_char(rem / 100)]
    } else if rem % 10 == 0 {
        seq!['.', digit_char(rem / 100), digit_char((rem / 10) % 10)]
    } else {
        seq!['.', digit_char(rem / 100), digit_char((rem / 10) % 10), digit_char(rem % 10)]
    })
}

/// Digits of a machine integer.
pub fn render_u64(n: u64) -> (s: String)
    ensures
        s@ == dec_digits(n as int),
    decreases n,
{
    if n < 10 {
        let mut s = String::new();
        s.push((48 + n as u8) as char);
        proof {
            assert(s@ =~= dec_digits(n as int));
        }
        s
    } else {
        let mut s = render_u64(n / 10);
        s.push((48 + (n % 10) as u8) as char);
        proof {
            assert(s@ =~= dec_digits(n as int));
        }
        s
    }
}

/// Render the value rounded to whole units (`spec_round_units`).
pub fn render_int_rounded(d: Dec) -> (r: String)
    requires
        d.wf(),
    ensures
        r@ == int_chars(spec_round_units(d)),
{
    let units: u64 = (d.milli + 500) / 1000;
    let digits = render_u64(units);
    if d.neg && units > 0 {
        let mut s = String::from_str("-");
        s.append(digits.as_str());
        proof {
            reveal_strlit("-");
            assert(s@ =~= int_chars(spec_round_units(d)));
        }
        s
    } else {
        digits
    }
}

/// Render the value with exactly one fractional digit (`one_dec_chars`).
pub fn render_one_dec(d: Dec) -> (r: String)
    requires
        d.wf(),
    ensures
        r@ == one_dec_chars(d),
{
    let deci: u64 = (d.milli + 50) / 100;
    let mut s = if d.neg {
        String::from_str("-")
    } else {
        String::new()
    };
    proof {
        reveal_strlit("-");
    }
    let digits = render_u64(deci / 10);
    s.append(digits.as_str());
    s.push('.');
    s.push((48 + (deci % 10) as u8) as char);
    proof {
        assert(s@ =~= one_dec_chars(d));
    }
    s
}

/// Render the value whole when it is whole, else with one fractional digit
/// (`auto_chars`).
pub fn render_auto(d: Dec) -> (r: String)
    requires
        d.wf(),
    ensures
        r@ == auto_chars(d),
{
    if d.milli % 1000 == 0 {
        let mut s = if d.neg {
            String::from_str("-")
        } else {
            String::new()
        };
        proof {
            reveal_strlit("-");
        }
        let digits = render_u64(d.milli / 1000);
        s.append(digits.as_str());
        proof {
            assert(s@ =~= auto_chars(d));
        }
        s
    } else {
        render_one_dec(d)
    }
}

/// Render the exact value with trailing fractional zeros dropped
/// (`plain_chars`).
pub fn render_plain(d: Dec) -> (r: String)
    requires
        d.wf(),
    ensures
        r@ == plain_chars(d),
{
    let rem: u64 = d.milli % 1000;
    let mut s = if d.neg {
        String::from_str("-")
    } else {
        String::new()
    };
    proof {
        reveal_strlit("-");
    }
    let digits = render_u64(d.milli / 1000);
    s.append(digits.as_str());
    if rem != 0 {
        s.push('.');
        s.push((48 + (rem / 100) as u8) as char);
        if rem % 100 != 0 {
            s.push((48 + ((rem / 10) % 10) as u8) as char);
            if rem % 10 != 0 {
                s.push((48 + (rem % 10) as u8) as char);
            }
        }
    }
    proof {
        assert(s@ =~= plain_chars(d));
    }
    s
}

proof fn lemma_digits1(fp: Seq<char>)
    requires
        fp.len() == 1,
    ensures
        digits_val(fp) == digit_val(fp[0]),
{
    assert(fp.drop_last() =~= fp.take(0));
    assert(digits_val(fp.take(0)) == 0);
}

proof fn lemma_digits2(fp: Seq<char>)
    requires
        fp.len() == 2,
    ensures
        digits_val(fp) == digit_val(fp[0]) * 10 + digit_val(fp[1]),
{
    assert(fp.drop_last() =~= fp.take(1));
    lemma_digits1(fp.take(1));
}

proof fn lemma_digits3_prefix(fp: Seq<char>)
    requires
        fp.len() >= 3,
    ensures
        digits_val(fp.take(3)) == digit_val(fp[0]) * 100 + digit_val(fp[1]) * 10 + digit_val(
            fp[2],
        ),
{
    let f3 = fp.take(3);
    assert(f3.drop_last() =~= fp.take(2));
    lemma_digits2(fp.take(2));
    assert(digits_val(f3) == digits_val(fp.take(2)) * 10 + digit_val(fp[2]));
}

} // verus!
