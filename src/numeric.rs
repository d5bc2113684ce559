//! Decimal text: whole numbers and signed amounts in hundredths.
use vstd::prelude::*;

verus! {

/// The largest whole-unit part that an amount may have.
pub const MAX_AMOUNT_UNITS: u64 = 10_000_000_000_000;

pub open spec fn is_digit(c: char) -> bool {
    '0' <= c && c <= '9'
}

pub open spec fn digit_of(c: char) -> nat {
    (c as u32 - '0' as u32) as nat
}

pub open spec fn all_digits(s: Seq<char>) -> bool {
    forall|i: int| 0 <= i < s.len() ==> is_digit(#[trigger] s[i])
}

/// A whole number that fits in `usize`.
pub open spec fn usize_of(s: Seq<char>) -> Option<usize> {
    match nat_of(s) {
        Some(v) => if v <= usize::MAX { Some(v as usize) } else { None },
        None => None,
    }
}

/// A whole number that fits in `u32`.
pub open spec fn u32_of(s: Seq<char>) -> Option<u32> {
    match nat_of(s) {
        Some(v) => if v <= u32::MAX { Some(v as u32) } else { None },
        None => None,
    }
}

/// The number that a string of decimal digits spells, most significant first.
pub open spec fn digits_value(s: Seq<char>) -> nat
    decreases s.len(),
{
    if s.len() == 0 {
        0
    } else {
        digits_value(s.drop_last()) * 10 + digit_of(s.last())
    }
}

/// The text without one leading `+`.
pub open spec fn without_plus(s: Seq<char>) -> Seq<char> {
    if s.len() > 0 && s[0] == '+' { s.drop_first() } else { s }
}

/// A whole number: an optional `+`, then one or more decimal digits.
pub open spec fn nat_of(s: Seq<char>) -> Option<nat> {
    let b = without_plus(s);
    if b.len() > 0 && all_digits(b) { Some(digits_value(b)) } else { None }
}

/// Index of the first `.` in `s`, or its length when there is none.
pub open spec fn first_dot(s: Seq<char>) -> int
    decreases s.len(),
{
    if s.len() == 0 {
        0
    } else if s[0] == '.' {
        0
    } else {
        1 + first_dot(s.drop_first())
    }
}

/// Digit `i` of a fraction, zero past its end.
pub open spec fn frac_digit(f: Seq<char>, i: int) -> nat {
    if i < f.len() { digit_of(f[i]) } else { 0 }
}

/// Hundredths of a fraction's digits, rounded half up on the third digit.
pub open spec fn frac_hundredths(f: Seq<char>) -> nat {
    10 * frac_digit(f, 0) + frac_digit(f, 1) + if frac_digit(f, 2) >= 5 { 1nat } else { 0nat }
}

/// The text of an amount without its sign.
pub open spec fn amount_body(s: Seq<char>) -> Seq<char> {
    if s.len() > 0 && (s[0] == '-' || s[0] == '+') { s.drop_first() } else { s }
}

/// The amount starts with a minus sign.
pub open spec fn amount_negative(s: Seq<char>) -> bool {
    s.len() > 0 && s[0] == '-'
}

/// An amount in hundredths: an optional sign, whole digits, then optionally a
/// `.` and fraction digits, with at least one digit in all; the whole part is
/// at most `MAX_AMOUNT_UNITS`.
pub open spec fn amount_of(s: Seq<char>) -> Option<int> {
    let b = amount_body(s);
    let k = first_dot(b);
    let whole = b.subrange(0, k);
    let frac = if k < b.len() { b.subrange(k + 1, b.len() as int) } else { Seq::empty() };
    if all_digits(whole) && all_digits(frac) && whole.len() + frac.len() > 0 && digits_value(whole)
        <= MAX_AMOUNT_UNITS {
        let magnitude = digits_value(whole) * 100 + frac_hundredths(frac);
        Some(if amount_negative(s) { -magnitude } else { magnitude as int })
    } else {
        None
    }
}

proof fn lemma_first_dot_step(s: Seq<char>, i: int)
    requires
        0 <= i < s.len(),
        s[i] != '.',
    ensures
        first_dot(s.subrange(i, s.len() as int)) == 1 + first_dot(s.subrange(i + 1, s.len() as int)),
{
    assert(s.subrange(i, s.len() as int).drop_first() =~= s.subrange(i + 1, s.len() as int));
}

proof fn lemma_first_dot_stop(s: Seq<char>, i: int)
    requires
        0 <= i <= s.len(),
        i == s.len() || s[i] == '.',
    ensures
        first_dot(s.subrange(i, s.len() as int)) == 0,
{
}

/// Reads the digits of `s` in `[from, to)`: whether all are digits, and their
/// value where it is at most `cap`.
fn scan_digits(s: &str, from: usize, to: usize, cap: u64) -> (r: (bool, Option<u64>))
    requires
        from <= to <= s@.len(),
    ensures
        r.0 == all_digits(s@.subrange(from as int, to as int)),
        r.0 ==> (r.1 is Some <==> digits_value(s@.subrange(from as int, to as int)) <= cap),
        r.0 && r.1 is Some ==> r.1->0 == digits_value(s@.subrange(from as int, to as int)),
{
    let mut i = from;
    let mut acc: u64 = 0;
    let mut over = false;
    while i < to
        invariant
            from <= i <= to <= s@.len(),
            all_digits(s@.subrange(from as int, i as int)),
            !over ==> acc == digits_value(s@.subrange(from as int, i as int)),
            !over ==> acc <= cap,
            over ==> digits_value(s@.subrange(from as int, i as int)) > cap,
        decreases to - i,
    {
        let c = s.get_char(i);
        if !('0' <= c && c <= '9') {
            proof {
                let t = s@.subrange(from as int, to as int);
                assert(t[i - from] == c);
            }
            return (false, None);
        }
        let d = (c as u32 - '0' as u32) as u64;
        proof {
            let p = s@.subrange(from as int, i as int + 1);
            assert(p.drop_last() =~= s@.subrange(from as int, i as int));
            assert(digits_value(p) == digits_value(p.drop_last()) * 10 + d);
        }
        if !over {
            if d <= cap && acc <= (cap - d) / 10 {
                proof {
                    assert(acc * 10 + d <= cap) by (nonlinear_arith)
                        requires
                            d <= cap,
                            acc <= (cap - d) / 10,
                    ;
                }
                acc = acc * 10 + d;
            } else {
                proof {
                    assert(acc * 10 + d > cap) by (nonlinear_arith)
                        requires
                            !(d <= cap && acc <= (cap - d) / 10),
                            acc >= 0,
                    ;
                }
                over = true;
            }
        }
        i = i + 1;
    }
    (true, if over { None } else { Some(acc) })
}

/// Reads a whole number of at most `cap`.
fn parse_capped(s: &str, cap: u64) -> (r: Option<u64>)
    ensures
        r is Some <==> (nat_of(s@) is Some && nat_of(s@)->0 <= cap),
        r is Some ==> r->0 == nat_of(s@)->0,
{
    let n = s.unicode_len();
    let mut start: usize = 0;
    if n > 0 && s.get_char(0) == '+' {
        start = 1;
    }
    proof {
        assert(without_plus(s@) =~= s@.subrange(start as int, n as int));
    }
    if start == n {
        return None;
    }
    let (ok, v) = scan_digits(s, start, n, cap);
    if ok { v } else { None }
}

/// Reads an unsigned whole number that fits in `usize`.
pub fn parse_usize(s: &str) -> (r: Option<usize>)
    ensures
        r == usize_of(s@),
{
    match parse_capped(s, usize::MAX as u64) {
        Some(v) => Some(v as usize),
        None => None,
    }
}

/// Reads an unsigned whole number that fits in `u32`.
pub fn parse_u32(s: &str) -> (r: Option<u32>)
    ensures
        r == u32_of(s@),
{
    match parse_capped(s, u32::MAX as u64) {
        Some(v) => Some(v as u32),
        None => None,
    }
}

/// Whether two texts are the same characters.
pub fn text_eq(a: &str, b: &str) -> (r: bool)
    ensures
        r == (a@ == b@),
{
    let n = a.unicode_len();
    if n != b.unicode_len() {
        return false;
    }
    let mut i: usize = 0;
    while i < n
        invariant
            i <= n == a@.len() == b@.len(),
            a@.subrange(0, i as int) == b@.subrange(0, i as int),
        decreases n - i,
    {
        if a.get_char(i) != b.get_char(i) {
            return false;
        }
        proof {
            assert(a@.subrange(0, i + 1) =~= a@.subrange(0, i as int).push(a@[i as int]));
            assert(b@.subrange(0, i + 1) =~= b@.subrange(0, i as int).push(b@[i as int]));
        }
        i = i + 1;
    }
    proof {
        assert(a@ =~= a@.subrange(0, n as int));
        assert(b@ =~= b@.subrange(0, n as int));
    }
    true
}

/// Reads a signed amount in hundredths.
pub fn parse_amount(s: &str) -> (r: Option<i64>)
    ensures
        r is Some <==> amount_of(s@) is Some,
        r is Some ==> r->0 as int == amount_of(s@)->0,
{
    let n = s.unicode_len();
    let mut start: usize = 0;
    let mut neg = false;
    if n > 0 {
        let c0 = s.get_char(0);
        if c0 == '-' || c0 == '+' {
            start = 1;
            neg = c0 == '-';
        }
    }
    let ghost b = amount_body(s@);
    proof {
        assert(b =~= s@.subrange(start as int, n as int));
    }
    // find the first '.'
    let mut k = start;
    while k < n && s.get_char(k) != '.'
        invariant
            start <= k <= n,
            n == s@.len(),
            b == s@.subrange(start as int, n as int),
            first_dot(b) == (k - start) + first_dot(s@.subrange(k as int, n as int)),
        decreases n - k,
    {
        proof {
            lemma_first_dot_step(s@, k as int);
        }
        k = k + 1;
    }
    proof {
        lemma_first_dot_stop(s@, k as int);
        assert(b.subrange(0, k - start) =~= s@.subrange(start as int, k as int));
        if k < n {
            assert(b.subrange(k - start + 1, b.len() as int) =~= s@.subrange(k + 1, n as int));
        }
    }
    let frac_from = if k < n { k + 1 } else { n };
    let (whole_ok, whole) = scan_digits(s, start, k, MAX_AMOUNT_UNITS);
    let (frac_ok, _) = scan_digits(s, frac_from, n, 0);
    if !whole_ok || !frac_ok || (k == start && frac_from == n) {
        return None;
    }
    let units = match whole {
        Some(v) => v,
        None => {
            return None;
        },
    };
    let ghost f = s@.subrange(frac_from as int, n as int);
    let mut digits: [u64; 3] = [0, 0, 0];
    let mut j: usize = 0;
    while j < 3
        invariant
            j <= 3,
            frac_from <= n == s@.len(),
            f == s@.subrange(frac_from as int, n as int),
            all_digits(f),
            forall|t: int| 0 <= t < j ==> digits@[t] as nat == frac_digit(f, t),
            forall|t: int| 0 <= t < 3 ==> digits@[t] <= 9,
            forall|t: int| j <= t < 3 ==> digits@[t] == 0,
        decreases 3 - j,
    {
        if j < n - frac_from {
            let c = s.get_char(frac_from + j);
            proof {
                assert(f[j as int] == c);
            }
            digits[j] = (c as u32 - '0' as u32) as u64;
        }
        j = j + 1;
    }
    let round: u64 = if digits[2] >= 5 { 1 } else { 0 };
    proof {
        assert(neg == amount_negative(s@));
        let kk = first_dot(b);
        assert(kk == k - start);
        let spec_frac = if kk < b.len() { b.subrange(kk + 1, b.len() as int) } else { Seq::<char>::empty() };
        assert(spec_frac =~= f);
        assert(frac_hundredths(f) == 10 * digits@[0] + digits@[1] + round);
    }
    let magnitude = units * 100 + 10 * digits[0] + digits[1] + round;
    if neg { Some(-(magnitude as i64)) } else { Some(magnitude as i64) }
}

} // verus!
