//! Decimal numbers and clock times as text.

use vstd::prelude::*;
use vstd::slice::slice_subrange;

use crate::text::{chars, eq_chars, find_char, split_at_char, to_lower, trim};

verus! {

/// The character of a decimal digit.
pub open spec fn digit(d: int) -> char {
    (48 + d) as char
}

/// A natural number in decimal, without leading zeros.
pub open spec fn dec(n: nat) -> Seq<char>
    decreases n,
{
    if n < 10 {
        seq![digit(n as int)]
    } else {
        dec(n / 10).push(digit((n % 10) as int))
    }
}

/// A natural number in decimal with at least two digits.
pub open spec fn dec2(n: nat) -> Seq<char> {
    if n < 10 {
        seq!['0'] + dec(n)
    } else {
        dec(n)
    }
}

/// An integer in decimal, with a minus sign where it is negative.
pub open spec fn dec_int(i: int) -> Seq<char> {
    if i < 0 {
        seq!['-'] + dec((-i) as nat)
    } else {
        dec(i as nat)
    }
}

/// An integer in decimal that always carries its sign.
pub open spec fn dec_signed(i: int) -> Seq<char> {
    if i < 0 {
        seq!['-'] + dec((-i) as nat)
    } else {
        seq!['+'] + dec(i as nat)
    }
}

/// Appends a number in decimal.
pub fn push_dec(out: &mut String, n: u64)
    ensures
        final(out)@ == old(out)@ + dec(n as nat),
    decreases n,
{
    if n >= 10 {
        push_dec(out, n / 10);
    }
    let d: u8 = (n % 10) as u8;
    let ghost before = out@;
    out.push((48 + d) as char);
    proof {
        if n < 10 {
            assert(out@ =~= old(out)@ + dec(n as nat));
        } else {
            assert(before == old(out)@ + dec((n / 10) as nat));
            assert(out@ =~= old(out)@ + dec(n as nat));
        }
    }
}

/// Appends a number in decimal with at least two digits.
pub fn push_dec2(out: &mut String, n: u64)
    ensures
        final(out)@ == old(out)@ + dec2(n as nat),
{
    if n < 10 {
        out.push('0');
    }
    push_dec(out, n);
    proof {
        assert(out@ =~= old(out)@ + dec2(n as nat));
    }
}

/// Appends an integer in decimal.
pub fn push_int(out: &mut String, n: i64)
    ensures
        final(out)@ == old(out)@ + dec_int(n as int),
{
    if n < 0 {
        out.push('-');
        let m: u64 = (-(n as i128)) as u64;
        push_dec(out, m);
    } else {
        push_dec(out, n as u64);
    }
    proof {
        assert(out@ =~= old(out)@ + dec_int(n as int));
    }
}

/// Appends an integer in decimal with its sign.
pub fn push_signed(out: &mut String, n: i64)
    ensures
        final(out)@ == old(out)@ + dec_signed(n as int),
{
    if n >= 0 {
        out.push('+');
    }
    push_int(out, n);
    proof {
        assert(out@ =~= old(out)@ + dec_signed(n as int));
    }
}

/// `c` is one of `0` to `9`.
pub open spec fn is_digit(c: char) -> bool {
    '0' <= c <= '9'
}

/// The value of a digit.
pub open spec fn digit_value(c: char) -> nat {
    (c as int - 48) as nat
}

/// Every character is a digit.
pub open spec fn all_digits(s: Seq<char>) -> bool {
    forall|i: int| 0 <= i < s.len() ==> is_digit(#[trigger] s[i])
}

/// The number that a run of digits writes.
pub open spec fn digits_value(s: Seq<char>) -> nat
    decreases s.len(),
{
    if s.len() == 0 {
        0
    } else {
        digits_value(s.drop_last()) * 10 + digit_value(s.last())
    }
}

/// The smaller of a number and the largest `u64`.
pub open spec fn sat64(n: nat) -> nat {
    if n > u64::MAX {
        u64::MAX as nat
    } else {
        n
    }
}

/// Whether every character is a digit.
pub fn only_digits(s: &[char]) -> (r: bool)
    ensures
        r == all_digits(s@),
{
    let mut i: usize = 0;
    while i < s.len()
        invariant
            i <= s@.len(),
            forall|k: int| 0 <= k < i ==> is_digit(#[trigger] s@[k]),
        decreases s@.len() - i,
    {
        if !('0' <= s[i] && s[i] <= '9') {
            return false;
        }
        i += 1;
    }
    true
}

/// The value of a run of digits, held at the largest `u64`.
pub fn digits_sat(s: &[char]) -> (r: u64)
    requires
        all_digits(s@),
    ensures
        r == sat64(digits_value(s@)),
{
    let mut v: u64 = 0;
    let mut i: usize = 0;
    proof {
        assert(s@.take(0).len() == 0);
    }
    while i < s.len()
        invariant
            i <= s@.len(),
            all_digits(s@),
            v == sat64(digits_value(s@.take(i as int))),
        decreases s@.len() - i,
    {
        let d: u64 = (s[i] as u32 - 48) as u64;
        proof {
            assert(s@.take(i as int + 1).drop_last() =~= s@.take(i as int));
            assert(s@.take(i as int + 1).last() == s@[i as int]);
        }
        v = if v > (u64::MAX - d) / 10 {
            u64::MAX
        } else {
            v * 10 + d
        };
        i += 1;
    }
    proof {
        assert(s@.take(i as int) =~= s@);
    }
    v
}

/// What std's `parse` makes of a text as an unsigned number up to `max`: an
/// optional plus sign and then nothing but digits.
pub open spec fn parsed_nat(s: Seq<char>, max: nat) -> Option<nat> {
    let d = if s.len() > 0 && s[0] == '+' {
        s.skip(1)
    } else {
        s
    };
    if d.len() > 0 && all_digits(d) && digits_value(d) <= max {
        Some(digits_value(d))
    } else {
        None
    }
}

proof fn lemma_digits_prefix(s: Seq<char>, k: int)
    requires
        0 <= k <= s.len(),
    ensures
        digits_value(s.take(k)) <= digits_value(s),
    decreases s.len(),
{
    if k < s.len() {
        assert(s.drop_last().take(k) =~= s.take(k));
        lemma_digits_prefix(s.drop_last(), k);
    } else {
        assert(s.take(k) =~= s);
    }
}

/// The value of a run of digits, where a `u64` can hold it.
fn digits_exact(s: &[char]) -> (r: Option<u64>)
    requires
        all_digits(s@),
    ensures
        match r {
            Some(v) => v == digits_value(s@),
            None => digits_value(s@) > u64::MAX,
        },
{
    let mut v: u64 = 0;
    let mut i: usize = 0;
    proof {
        assert(s@.take(0).len() == 0);
    }
    while i < s.len()
        invariant
            i <= s@.len(),
            all_digits(s@),
            v == digits_value(s@.take(i as int)),
        decreases s@.len() - i,
    {
        let d: u64 = (s[i] as u32 - 48) as u64;
        proof {
            assert(s@.take(i as int + 1).drop_last() =~= s@.take(i as int));
            assert(s@.take(i as int + 1).last() == s@[i as int]);
            lemma_digits_prefix(s@, i as int + 1);
        }
        if v > (u64::MAX - d) / 10 {
            return None;
        }
        v = v * 10 + d;
        i += 1;
    }
    proof {
        assert(s@.take(i as int) =~= s@);
    }
    Some(v)
}

/// Parses an unsigned number that is at most `max`.
pub fn parse_nat(s: &[char], max: u64) -> (r: Option<u64>)
    ensures
        match r {
            Some(n) => parsed_nat(s@, max as nat) == Some(n as nat),
            None => parsed_nat(s@, max as nat) is None,
        },
{
    let d: &[char] = if s.len() > 0 && s[0] == '+' {
        slice_subrange(s, 1, s.len())
    } else {
        s
    };
    proof {
        if s@.len() > 0 && s@[0] == '+' {
            assert(d@ =~= s@.skip(1));
        }
    }
    if d.len() == 0 || !only_digits(d) {
        return None;
    }
    match digits_exact(d) {
        Some(v) => if v <= max {
            Some(v)
        } else {
            None
        },
        None => None,
    }
}

proof fn lemma_dec_beyond()
    ensures
        dec(0x1_0000_0000_0000_0000) == "18446744073709551616"@,
{
    reveal_strlit("18446744073709551616");
    reveal_with_fuel(dec, 21);
    assert(dec(0x1_0000_0000_0000_0000) =~= "18446744073709551616"@);
}

/// Appends the number that follows a place, counted from zero.
pub(crate) fn push_next(out: &mut String, place: usize)
    ensures
        final(out)@ == old(out)@ + dec((place + 1) as nat),
{
    if place as u64 == u64::MAX {
        proof {
            lemma_dec_beyond();
        }
        out.push_str("18446744073709551616");
    } else {
        push_dec(out, place as u64 + 1);
    }
}

/// Seconds as `H:MM:SS`.
pub open spec fn hms(secs: nat) -> Seq<char> {
    dec(secs / 3600) + ":"@ + dec2(secs % 3600 / 60) + ":"@ + dec2(secs % 60)
}

/// Formats a time of whole seconds as `H:MM:SS`.
pub(crate) fn fmt_secs(secs: u64) -> (r: String)
    ensures
        r@ == hms(secs as nat),
{
    let mut out: String = String::new();
    push_dec(&mut out, secs / 3600);
    proof {
        assert(out@ =~= dec((secs / 3600) as nat));
    }
    out.push_str(":");
    push_dec2(&mut out, secs % 3600 / 60);
    out.push_str(":");
    push_dec2(&mut out, secs % 60);
    out
}

/// Formats a time of microseconds as `H:MM:SS`; what is less than a second is
/// cut off.
pub fn fmt_hms(us: u64) -> (r: String)
    ensures
        r@ == hms(us as nat / 1_000_000),
{
    fmt_secs(us / 1_000_000)
}

/// Seconds as `M:SS`, or as `H:MM:SS` from one hour on.
pub open spec fn short_time(secs: nat) -> Seq<char> {
    if secs / 3600 > 0 {
        hms(secs)
    } else {
        dec(secs / 60) + ":"@ + dec2(secs % 60)
    }
}

/// Formats a duration as `M:SS` (or `H:MM:SS` when it is an hour or more).
pub fn fmt_dur(secs: u64) -> (r: String)
    ensures
        r@ == short_time(secs as nat),
{
    if secs / 3600 > 0 {
        fmt_secs(secs)
    } else {
        let mut out: String = String::new();
        push_dec(&mut out, secs / 60);
        proof {
            assert(out@ =~= dec((secs / 60) as nat));
        }
        out.push_str(":");
        push_dec2(&mut out, secs % 60);
        out
    }
}

/// Ten to a power.
pub open spec fn ten_to(k: nat) -> nat
    decreases k,
{
    if k == 0 {
        1
    } else {
        10 * ten_to((k - 1) as nat)
    }
}

/// The number that the first digits of a run write, so many of them; where
/// there are not as many, zeros follow.
pub open spec fn leading(d: Seq<char>, keep: int) -> nat {
    if keep <= 0 {
        0
    } else if keep <= d.len() {
        digits_value(d.take(keep))
    } else {
        digits_value(d) * ten_to((keep - d.len()) as nat)
    }
}

/// Where an exponent begins, or the end.
pub open spec fn exponent_at(s: Seq<char>, from: int) -> int
    decreases s.len() - from,
{
    if from < 0 || from >= s.len() || s[from] == 'e' || s[from] == 'E' {
        from
    } else {
        exponent_at(s, from + 1)
    }
}

/// A whole number: digits, perhaps behind a sign.
pub open spec fn signed_value(s: Seq<char>) -> Option<int> {
    let d = if s.len() > 0 && (s[0] == '+' || s[0] == '-') {
        s.skip(1)
    } else {
        s
    };
    if d.len() == 0 || !all_digits(d) {
        None
    } else if s[0] == '-' {
        Some(-(digits_value(d) as int))
    } else {
        Some(digits_value(d) as int)
    }
}

/// What a number without an exponent writes, in millionths, once its point is
/// moved to the right by so many digits: digits, then perhaps a point and more
/// digits, with at least one digit in all. What counts less than a millionth
/// is dropped.
pub open spec fn moved(s: Seq<char>, by: int) -> Option<nat> {
    let dot = crate::text::index_of(s, '.', 0);
    let whole = if dot is Some { s.take(dot->0) } else { s };
    let frac = if dot is Some { s.skip(dot->0 + 1) } else { Seq::<char>::empty() };
    if all_digits(whole) && all_digits(frac) && whole.len() + frac.len() > 0 {
        Some(leading(whole + frac, whole.len() + 6 + by))
    } else {
        None
    }
}

/// A decimal number without a sign, in millionths: digits with perhaps a point
/// among them, and perhaps an exponent.
pub open spec fn millionths(t: Seq<char>) -> Option<nat> {
    let e = exponent_at(t, 0);
    if e < t.len() {
        match signed_value(t.skip(e + 1)) {
            Some(by) => moved(t.take(e), by),
            None => None,
        }
    } else {
        moved(t, 0)
    }
}

/// What a text without a sign says as a number in millionths. What is too large
/// for a `u64`, and what is infinite, is held at the largest one. The second
/// `None` stands for what is called a number and is none.
pub open spec fn magnitude(t: Seq<char>) -> Option<Option<nat>> {
    let low = crate::text::lower(t);
    if low == "inf"@ || low == "infinity"@ {
        Some(Some(u64::MAX as nat))
    } else if low == "nan"@ {
        Some(None)
    } else {
        match millionths(t) {
            Some(n) => Some(Some(sat64(n))),
            None => None,
        }
    }
}

/// What a text says as a number in millionths, perhaps behind a sign.
pub open spec fn number(s: Seq<char>) -> Option<Option<int>> {
    let signed = s.len() > 0 && (s[0] == '+' || s[0] == '-');
    let t = if signed {
        s.skip(1)
    } else {
        s
    };
    match magnitude(t) {
        Some(Some(n)) => Some(
            Some(
                if signed && s[0] == '-' {
                    -(n as int)
                } else {
                    n as int
                },
            ),
        ),
        Some(None) => Some(None),
        None => None,
    }
}

/// A number that counts so many times.
pub open spec fn times(n: Option<int>, k: int) -> Option<int> {
    match n {
        Some(n) => Some(n * k),
        None => None,
    }
}

/// Two numbers together.
pub open spec fn plus(a: Option<int>, b: Option<int>) -> Option<int> {
    match (a, b) {
        (Some(a), Some(b)) => Some(a + b),
        _ => None,
    }
}

/// The time that a number of microseconds stands for: nothing comes before the
/// start, and what is no number is the start.
pub open spec fn time_of(n: Option<int>) -> nat {
    match n {
        Some(n) => if n < 0 {
            0
        } else {
            sat64(n as nat)
        },
        None => 0,
    }
}

/// The parts of a clock time, combined.
pub open spec fn clock(parts: Seq<Seq<char>>) -> Option<nat> {
    if parts.len() == 3 {
        match (number(parts[0]), number(parts[1]), number(parts[2])) {
            (Some(h), Some(m), Some(s)) => Some(
                time_of(plus(plus(times(h, 3600), times(m, 60)), s)),
            ),
            _ => None,
        }
    } else if parts.len() == 2 {
        match (number(parts[0]), number(parts[1])) {
            (Some(m), Some(s)) => Some(time_of(plus(times(m, 60), s))),
            _ => None,
        }
    } else if parts.len() == 1 {
        match number(parts[0]) {
            Some(s) => Some(time_of(s)),
            None => None,
        }
    } else {
        None
    }
}

/// What a clock time in the form `H:MM:SS[.fff]` says, in microseconds;
/// `MM:SS` and plain seconds are taken too.
pub open spec fn hms_us(s: Seq<char>) -> Option<nat> {
    let t = crate::text::trimmed(s);
    if t.len() == 0 || t == "NOT_IMPLEMENTED"@ {
        None
    } else {
        clock(crate::text::split(t, ':'))
    }
}

proof fn lemma_ten_to(a: nat, b: nat)
    requires
        a <= b,
    ensures
        0 < ten_to(a) <= ten_to(b),
    decreases b,
{
    if a < b {
        lemma_ten_to(a, (b - 1) as nat);
    } else if b > 0 {
        lemma_ten_to((a - 1) as nat, (b - 1) as nat);
    }
}

/// Beyond twenty zeros it does not matter how many there are.
proof fn lemma_leading_far(d: Seq<char>, a: int, b: int)
    requires
        d.len() + 20 <= a <= b,
    ensures
        (leading(d, a) == 0 && leading(d, b) == 0) || (leading(d, a) >= u64::MAX && leading(d, b)
            >= u64::MAX),
{
    let v = digits_value(d);
    let x = ten_to((a - d.len()) as nat);
    let y = ten_to((b - d.len()) as nat);
    lemma_ten_to(20, (a - d.len()) as nat);
    lemma_ten_to(20, (b - d.len()) as nat);
    assert(ten_to(20) >= u64::MAX) by {
        reveal_with_fuel(ten_to, 21);
    }
    if v > 0 {
        assert(v * x >= x && v * y >= y) by (nonlinear_arith)
            requires
                v > 0,
                x >= 0,
                y >= 0,
        ;
    } else {
        assert(v * x == 0 && v * y == 0) by (nonlinear_arith)
            requires
                v == 0,
        ;
    }
}

/// The first digits of a run. What a `u64` cannot hold is at least its largest
/// value.
fn leading_of(d: &[char], keep: i128) -> (r: u128)
    requires
        all_digits(d@),
    ensures
        r <= u64::MAX * 10,
        r == leading(d@, keep as int) || (r >= u64::MAX && leading(d@, keep as int) >= u64::MAX),
{
    if keep <= 0 {
        return 0;
    }
    if keep <= d.len() as i128 {
        let front: &[char] = slice_subrange(d, 0, keep as usize);
        proof {
            assert(front@ =~= d@.take(keep as int));
        }
        return digits_sat(front) as u128;
    }
    let ghost v = digits_value(d@);
    let ghost total = (keep - d@.len()) as nat;
    let mut acc: u128 = digits_sat(d) as u128;
    if acc == 0 {
        proof {
            assert(v * ten_to(total) == 0) by (nonlinear_arith)
                requires
                    v == 0,
            ;
        }
        return 0;
    }
    let mut left: i128 = keep - d.len() as i128;
    proof {
        assert(ten_to(0) == 1);
        assert(v * 1 == v);
    }
    while left > 0 && acc < u64::MAX as u128
        invariant
            0 <= left <= total,
            acc <= u64::MAX * 10,
            acc == v * ten_to((total - left) as nat) || (acc >= u64::MAX && v >= u64::MAX),
        decreases left,
    {
        proof {
            let t = ten_to((total - left) as nat);
            assert(ten_to((total - left + 1) as nat) == 10 * t);
            assert(v * (10 * t) == 10 * (v * t)) by (nonlinear_arith);
        }
        acc = acc * 10;
        left = left - 1;
    }
    proof {
        lemma_ten_to((total - left) as nat, total);
        lemma_ten_to(0, total);
        let t = ten_to((total - left) as nat);
        let all = ten_to(total);
        assert(v * t <= v * all && v <= v * all) by (nonlinear_arith)
            requires
                t <= all,
                1 <= all,
        ;
    }
    acc
}

/// The largest exponent that is told apart.
const FAR: i128 = 1_000_000_000_000_000_000_000_000;

/// A whole number with its sign, held at a far one.
fn signed_of(s: &[char]) -> (r: Option<i128>)
    ensures
        match r {
            Some(n) => signed_value(s@) is Some && -FAR <= n <= FAR && (n == signed_value(s@)->0 || (
            n == FAR && signed_value(s@)->0 >= FAR) || (n == -FAR && signed_value(s@)->0 <= -FAR)),
            None => signed_value(s@) is None,
        },
{
    let signed: bool = s.len() > 0 && (s[0] == '+' || s[0] == '-');
    let d: &[char] = if signed {
        slice_subrange(s, 1, s.len())
    } else {
        s
    };
    proof {
        if signed {
            assert(d@ =~= s@.skip(1));
        }
    }
    if d.len() == 0 || !only_digits(d) {
        return None;
    }
    let mut v: i128 = 0;
    let mut i: usize = 0;
    proof {
        assert(d@.take(0).len() == 0);
    }
    while i < d.len()
        invariant
            i <= d@.len(),
            all_digits(d@),
            0 <= v <= FAR,
            v == digits_value(d@.take(i as int)) || (v == FAR && digits_value(d@.take(i as int))
                >= FAR),
        decreases d@.len() - i,
    {
        let c: i128 = (d[i] as u32 - 48) as i128;
        proof {
            assert(d@.take(i as int + 1).drop_last() =~= d@.take(i as int));
            assert(d@.take(i as int + 1).last() == d@[i as int]);
        }
        v = if v * 10 + c >= FAR {
            FAR
        } else {
            v * 10 + c
        };
        i += 1;
    }
    proof {
        assert(d@.take(i as int) =~= d@);
    }
    if s[0] == '-' {
        Some(-v)
    } else {
        Some(v)
    }
}

/// A number without an exponent, with its point moved.
fn moved_of(s: &[char], by: i128) -> (r: Option<u128>)
    requires
        -FAR <= by <= FAR,
    ensures
        match r {
            Some(n) => moved(s@, by as int) is Some && n <= u64::MAX * 10 && (moved(
                s@,
                by as int,
            )->0 == n || (n >= u64::MAX && moved(s@, by as int)->0 >= u64::MAX)),
            None => moved(s@, by as int) is None,
        },
        forall|other: int|
            #![trigger moved(s@, other)]
            (by == FAR && other >= FAR) || (by == -FAR && other <= -FAR) ==> match r {
                Some(n) => moved(s@, other) is Some && (moved(s@, other)->0 == n || (n >= u64::MAX
                    && moved(s@, other)->0 >= u64::MAX)),
                None => moved(s@, other) is None,
            },
{
    let n: usize = s.len();
    let (whole, frac): (&[char], &[char]) = match find_char(s, '.', 0) {
        Some(i) => (slice_subrange(s, 0, i), slice_subrange(s, i + 1, n)),
        None => (s, slice_subrange(s, n, n)),
    };
    proof {
        match crate::text::index_of(s@, '.', 0) {
            Some(i) => {
                assert(whole@ =~= s@.take(i));
                assert(frac@ =~= s@.skip(i + 1));
            },
            None => {
                assert(frac@ =~= Seq::empty());
            },
        }
    }
    if !only_digits(whole) || !only_digits(frac) || (whole.len() == 0 && frac.len() == 0) {
        return None;
    }
    let mut all: Vec<char> = vstd::slice::slice_to_vec(whole);
    let mut rest: Vec<char> = vstd::slice::slice_to_vec(frac);
    all.append(&mut rest);
    let keep: i128 = whole.len() as i128 + 6 + by;
    proof {
        assert(all@ =~= whole@ + frac@);
        assert forall|i: int| 0 <= i < all@.len() implies is_digit(#[trigger] all@[i]) by {
            if i < whole@.len() {
                assert(all@[i] == whole@[i]);
            } else {
                assert(all@[i] == frac@[i - whole@.len()]);
            }
        }
        assert forall|other: int| by == FAR && other >= FAR implies (leading(all@, keep as int) == 0
            && leading(all@, #[trigger] (whole@.len() + 6 + other)) == 0) || (leading(
            all@,
            keep as int,
        ) >= u64::MAX && leading(all@, whole@.len() + 6 + other) >= u64::MAX) by {
            lemma_leading_far(all@, keep as int, whole@.len() + 6 + other);
        }
    }
    Some(leading_of(all.as_slice(), keep))
}

/// A decimal number in millionths. What a `u64` cannot hold is at least its
/// largest value.
fn millionths_of(t: &[char]) -> (r: Option<u128>)
    ensures
        match r {
            Some(n) => millionths(t@) is Some && n <= u64::MAX * 10 && (millionths(t@)->0 == n || (
            n >= u64::MAX && millionths(t@)->0 >= u64::MAX)),
            None => millionths(t@) is None,
        },
{
    let mut e: usize = 0;
    while e < t.len() && t[e] != 'e' && t[e] != 'E'
        invariant
            e <= t@.len(),
            exponent_at(t@, 0) == exponent_at(t@, e as int),
        decreases t@.len() - e,
    {
        e += 1;
    }
    if e < t.len() {
        let front: &[char] = slice_subrange(t, 0, e);
        let back: &[char] = slice_subrange(t, e + 1, t.len());
        proof {
            assert(front@ =~= t@.take(e as int));
            assert(back@ =~= t@.skip(e as int + 1));
        }
        match signed_of(back) {
            Some(by) => moved_of(front, by),
            None => None,
        }
    } else {
        moved_of(t, 0)
    }
}

fn magnitude_of(t: &[char]) -> (r: Option<Option<u64>>)
    ensures
        match r {
            Some(Some(n)) => magnitude(t@) == Some(Some(n as nat)),
            Some(None) => magnitude(t@) == Some(None::<nat>),
            None => magnitude(t@) is None,
        },
{
    let low: Vec<char> = to_lower(t);
    let inf: Vec<char> = chars("inf");
    let infinity: Vec<char> = chars("infinity");
    let nan: Vec<char> = chars("nan");
    if eq_chars(low.as_slice(), inf.as_slice()) || eq_chars(low.as_slice(), infinity.as_slice()) {
        Some(Some(u64::MAX))
    } else if eq_chars(low.as_slice(), nan.as_slice()) {
        Some(None)
    } else {
        match millionths_of(t) {
            Some(n) => if n >= u64::MAX as u128 {
                Some(Some(u64::MAX))
            } else {
                Some(Some(n as u64))
            },
            None => None,
        }
    }
}

/// Reads a number in millionths.
pub(crate) fn number_of(s: &[char]) -> (r: Option<Option<i128>>)
    ensures
        match r {
            Some(Some(n)) => number(s@) == Some(Some(n as int)) && -u64::MAX <= n <= u64::MAX,
            Some(None) => number(s@) == Some(None::<int>),
            None => number(s@) is None,
        },
{
    let signed: bool = s.len() > 0 && (s[0] == '+' || s[0] == '-');
    let t: &[char] = if signed {
        slice_subrange(s, 1, s.len())
    } else {
        s
    };
    proof {
        if signed {
            assert(t@ =~= s@.skip(1));
        }
    }
    match magnitude_of(t) {
        Some(Some(n)) => if signed && s[0] == '-' {
            Some(Some(-(n as i128)))
        } else {
            Some(Some(n as i128))
        },
        Some(None) => Some(None),
        None => None,
    }
}

/// The time that a number of microseconds stands for.
pub(crate) fn to_time(n: Option<i128>) -> (r: u64)
    ensures
        r == time_of(
            match n {
                Some(n) => Some(n as int),
                None => None,
            },
        ),
{
    match n {
        Some(n) => if n < 0 {
            0
        } else if n > u64::MAX as i128 {
            u64::MAX
        } else {
            n as u64
        },
        None => 0,
    }
}

/// What the hours, the minutes and the seconds of a clock time come to.
pub(crate) fn clock_of(h: &[char], m: &[char], s: &[char]) -> (r: Option<u64>)
    ensures
        match r {
            Some(n) => clock(seq![h@, m@, s@]) == Some(n as nat),
            None => clock(seq![h@, m@, s@]) is None,
        },
{
    match (number_of(h), number_of(m), number_of(s)) {
        (Some(h), Some(m), Some(s)) => {
            let total: Option<i128> = match (h, m, s) {
                (Some(h), Some(m), Some(s)) => Some(h * 3600 + m * 60 + s),
                _ => None,
            };
            Some(to_time(total))
        },
        _ => None,
    }
}

/// Parses `H:MM:SS[.fff]` (also `MM:SS` and plain seconds) into microseconds,
/// from the start up to the largest `u64`.
pub fn parse_hms(s: &str) -> (r: Option<u64>)
    ensures
        match r {
            Some(n) => hms_us(s@) == Some(n as nat),
            None => hms_us(s@) is None,
        },
{
    let cs: Vec<char> = chars(s);
    let t: &[char] = trim(cs.as_slice());
    let ni: Vec<char> = chars("NOT_IMPLEMENTED");
    if t.len() == 0 || eq_chars(t, ni.as_slice()) {
        return None;
    }
    let parts: Vec<Vec<char>> = split_at_char(t, ':');
    proof {
        assert(crate::text::views(parts@).len() == parts@.len());
        assert(forall|k: int|
            0 <= k < parts@.len() ==> crate::text::views(parts@)[k] == #[trigger] parts@[k]@);
    }
    if parts.len() == 3 {
        proof {
            assert(crate::text::views(parts@) =~= seq![parts@[0]@, parts@[1]@, parts@[2]@]);
        }
        clock_of(parts[0].as_slice(), parts[1].as_slice(), parts[2].as_slice())
    } else if parts.len() == 2 {
        match (number_of(parts[0].as_slice()), number_of(parts[1].as_slice())) {
            (Some(m), Some(sec)) => {
                let total: Option<i128> = match (m, sec) {
                    (Some(m), Some(sec)) => Some(m * 60 + sec),
                    _ => None,
                };
                Some(to_time(total))
            },
            _ => None,
        }
    } else if parts.len() == 1 {
        match number_of(parts[0].as_slice()) {
            Some(sec) => Some(to_time(sec)),
            None => None,
        }
    } else {
        None
    }
}

/// A number is written in digits, and they write that number.
pub proof fn lemma_dec_digits(n: nat)
    ensures
        all_digits(dec(n)),
        dec(n).len() > 0,
        digits_value(dec(n)) == n,
    decreases n,
{
    if n < 10 {
        assert(dec(n).drop_last() =~= Seq::<char>::empty());
        assert(digits_value(dec(n).drop_last()) == 0);
    } else {
        lemma_dec_digits(n / 10);
        assert(dec(n).drop_last() =~= dec(n / 10));
        assert forall|i: int| 0 <= i < dec(n).len() implies is_digit(#[trigger] dec(n)[i]) by {
            if i < dec(n / 10).len() {
                assert(dec(n)[i] == dec(n / 10)[i]);
            }
        }
    }
}

pub(crate) proof fn lemma_dec2_digits(n: nat)
    ensures
        all_digits(dec2(n)),
        dec2(n).len() > 0,
        digits_value(dec2(n)) == n,
{
    lemma_dec_digits(n);
    if n < 10 {
        let s = seq!['0'] + dec(n);
        assert(s.drop_last() =~= seq!['0']);
        assert(seq!['0'].drop_last() =~= Seq::<char>::empty());
        reveal_with_fuel(digits_value, 3);
    }
}

proof fn lemma_digits_number(s: Seq<char>)
    requires
        all_digits(s),
        s.len() > 0,
    ensures
        number(s) == Some(Some(sat64(digits_value(s) * 1_000_000) as int)),
{
    crate::text::lemma_index_of(s, '.', 0);
    if let Some(i) = crate::text::index_of(s, '.', 0) {
        assert(is_digit(s[i]));
    }
    assert(is_digit(s[0]));
    lemma_no_exponent(s, 0);
    assert(s + Seq::<char>::empty() =~= s);
    assert(ten_to(6) == 1_000_000) by {
        reveal_with_fuel(ten_to, 7);
    }
    reveal_strlit("inf");
    reveal_strlit("infinity");
    reveal_strlit("nan");
    let low = crate::text::lower(s);
    assert(low[0] == crate::text::lower_char(s[0]));
    assert(low[0] == s[0]);
    assert("inf"@[0] == 'i' && "infinity"@[0] == 'i' && "nan"@[0] == 'n');
}

proof fn lemma_no_exponent(s: Seq<char>, from: int)
    requires
        all_digits(s),
        0 <= from <= s.len(),
    ensures
        exponent_at(s, from) == s.len(),
    decreases s.len() - from,
{
    if from < s.len() {
        assert(is_digit(s[from]));
        lemma_no_exponent(s, from + 1);
    }
}

proof fn lemma_split_digits(a: Seq<char>, rest: Seq<char>)
    requires
        all_digits(a),
    ensures
        crate::text::split(a + ":"@ + rest, ':') == seq![a] + crate::text::split(rest, ':'),
        crate::text::split(a, ':') == seq![a],
{
    reveal_strlit(":");
    let s = a + ":"@ + rest;
    crate::text::lemma_index_of(s, ':', 0);
    crate::text::lemma_index_of(a, ':', 0);
    assert(s[a.len() as int] == ':');
    assert forall|i: int| 0 <= i < a.len() implies #[trigger] s[i] != ':' by {
        assert(is_digit(a[i]));
        assert(s[i] == a[i]);
    }
    if let Some(i) = crate::text::index_of(a, ':', 0) {
        assert(is_digit(a[i]));
    }
    assert(s.take(a.len() as int) =~= a);
    assert(s.skip(a.len() as int + 1) =~= rest);
}

/// A time that was written as `H:MM:SS` is read back as it was, as far as a
/// number of microseconds can be held.
pub proof fn lemma_hms_round_trip(secs: nat)
    ensures
        hms_us(hms(secs)) == Some(sat64(secs * 1_000_000)),
{
    let h = dec(secs / 3600);
    let m = dec2(secs % 3600 / 60);
    let s = dec2(secs % 60);
    let t = hms(secs);
    lemma_dec_digits(secs / 3600);
    lemma_dec2_digits(secs % 3600 / 60);
    lemma_dec2_digits(secs % 60);
    assert(t =~= h + ":"@ + (m + ":"@ + s));
    assert(crate::text::trimmed(t) == t && t != "NOT_IMPLEMENTED"@) by {
        reveal_strlit("NOT_IMPLEMENTED");
        assert(is_digit(t[0])) by {
            assert(t[0] == h[0]);
        }
        assert(is_digit(t.last())) by {
            assert(t.last() == s.last());
            assert(is_digit(s[s.len() - 1]));
        }
        assert(crate::text::trim_start(t) == t);
        assert(t[0] != "NOT_IMPLEMENTED"@[0]);
    }
    let parts = crate::text::split(t, ':');
    assert(parts =~= seq![h, m, s]) by {
        lemma_split_digits(h, m + ":"@ + s);
        lemma_split_digits(m, s);
        lemma_split_digits(s, s);
    }
    lemma_clock_digits(h, m, s);
}

proof fn lemma_clock_digits(h: Seq<char>, m: Seq<char>, s: Seq<char>)
    requires
        all_digits(h) && h.len() > 0,
        all_digits(m) && m.len() > 0,
        all_digits(s) && s.len() > 0,
    ensures
        clock(seq![h, m, s]) == Some(
            sat64((digits_value(h) * 3600 + digits_value(m) * 60 + digits_value(s)) * 1_000_000),
        ),
{
    lemma_digits_number(h);
    lemma_digits_number(m);
    lemma_digits_number(s);
}

/// A whole number that was written in decimal is read back, in millionths.
pub proof fn lemma_dec_number(n: nat)
    ensures
        number(dec(n)) == Some(Some(sat64(n * 1_000_000) as int)),
{
    lemma_dec_digits(n);
    lemma_digits_number(dec(n));
}

/// Different numbers are written differently.
pub proof fn lemma_dec_distinct(a: nat, b: nat)
    requires
        dec(a) == dec(b),
    ensures
        a == b,
{
    lemma_dec_digits(a);
    lemma_dec_digits(b);
}

/// A number that was written is parsed back, wherever it is small enough.
pub proof fn lemma_parse_dec(n: nat, max: nat)
    ensures
        n <= max ==> parsed_nat(dec(n), max) == Some(n),
        n > max ==> parsed_nat(dec(n), max) is None,
{
    lemma_dec_digits(n);
    assert(is_digit(dec(n)[0]));
}

/// A minus sign stands before a number below zero, and before no other; where
/// the sign is asked for, a plus sign stands before the others.
pub proof fn lemma_signs(i: int)
    ensures
        i < 0 <==> dec_int(i)[0] == '-',
        i < 0 <==> dec_signed(i)[0] == '-',
        i >= 0 <==> dec_signed(i)[0] == '+',
        i < 0 ==> dec_int(i).skip(1) == dec((-i) as nat),
        i >= 0 ==> dec_int(i) == dec(i as nat),
        dec_signed(i).skip(1) == dec(
            (if i < 0 {
                -i
            } else {
                i
            }) as nat,
        ),
{
    lemma_dec_digits((-i) as nat);
    lemma_dec_digits(i as nat);
    if i < 0 {
        assert(dec_int(i).skip(1) =~= dec((-i) as nat));
        assert(dec_signed(i).skip(1) =~= dec((-i) as nat));
    } else {
        assert(is_digit(dec(i as nat)[0]));
        assert(dec_signed(i).skip(1) =~= dec(i as nat));
    }
}

/// Minutes and seconds are written with two digits behind the hours, and a time
/// under an hour without them.
pub proof fn lemma_times_written(h: nat, m: nat, s: nat)
    requires
        m < 60,
        s < 60,
    ensures
        hms(3600 * h + 60 * m + s) == dec(h) + ":"@ + dec2(m) + ":"@ + dec2(s),
        short_time(60 * m + s) == dec(m) + ":"@ + dec2(s),
        h > 0 ==> short_time(3600 * h + 60 * m + s) == dec(h) + ":"@ + dec2(m) + ":"@ + dec2(s),
        dec2(m).len() == 2,
        dec2(s).len() == 2,
{
    let secs = 3600 * h + 60 * m + s;
    assert(secs / 3600 == h && secs % 3600 / 60 == m && secs % 60 == s) by (nonlinear_arith)
        requires
            secs == 3600 * h + 60 * m + s,
            m < 60,
            s < 60,
    ;
    lemma_two_digits(m);
    lemma_two_digits(s);
}

proof fn lemma_two_digits(n: nat)
    requires
        n < 100,
    ensures
        dec2(n).len() == 2,
{
    reveal_with_fuel(dec, 3);
}

/// A clock time has three parts, and no blanks round it.
pub(crate) proof fn lemma_hms_parts(secs: nat)
    ensures
        crate::text::trimmed(hms(secs)) == hms(secs),
        hms(secs).len() > 0,
        hms(secs) != "NOT_IMPLEMENTED"@,
        crate::text::split(hms(secs), ':') == seq![
            dec(secs / 3600),
            dec2(secs % 3600 / 60),
            dec2(secs % 60),
        ],
{
    let h = dec(secs / 3600);
    let m = dec2(secs % 3600 / 60);
    let s = dec2(secs % 60);
    let t = hms(secs);
    lemma_dec_digits(secs / 3600);
    lemma_dec2_digits(secs % 3600 / 60);
    lemma_dec2_digits(secs % 60);
    assert(t =~= h + ":"@ + (m + ":"@ + s));
    assert(crate::text::trimmed(t) == t && t != "NOT_IMPLEMENTED"@) by {
        reveal_strlit("NOT_IMPLEMENTED");
        assert(is_digit(t[0])) by {
            assert(t[0] == h[0]);
        }
        assert(is_digit(t.last())) by {
            assert(t.last() == s.last());
            assert(is_digit(s[s.len() - 1]));
        }
        assert(crate::text::trim_start(t) == t);
        assert(t[0] != "NOT_IMPLEMENTED"@[0]);
    }
    lemma_split_digits(h, m + ":"@ + s);
    lemma_split_digits(m, s);
    lemma_split_digits(s, s);
    assert(crate::text::split(t, ':') =~= seq![h, m, s]);
}

/// Digits behind digits: the front counts ten times as much for each of them.
proof fn lemma_digits_join(a: Seq<char>, b: Seq<char>)
    ensures
        digits_value(a + b) == digits_value(a) * ten_to(b.len()) + digits_value(b),
    decreases b.len(),
{
    if b.len() == 0 {
        assert(a + b =~= a);
        assert(digits_value(a) * 1 == digits_value(a));
    } else {
        assert((a + b).drop_last() =~= a + b.drop_last());
        lemma_digits_join(a, b.drop_last());
        let x = digits_value(a);
        let t = ten_to((b.len() - 1) as nat);
        assert(x * t * 10 == x * (10 * t)) by (nonlinear_arith);
    }
}

/// A number with a point and six digits behind it is read to the last of them.
pub(crate) proof fn lemma_decimal_number(whole: Seq<char>, frac: Seq<char>)
    requires
        all_digits(whole),
        all_digits(frac),
        whole.len() > 0,
        frac.len() == 6,
        digits_value(whole) * 1_000_000 + digits_value(frac) <= u64::MAX,
    ensures
        number(whole + "."@ + frac) == Some(
            Some((digits_value(whole) * 1_000_000 + digits_value(frac)) as int),
        ),
{
    reveal_strlit(".");
    let s = whole + "."@ + frac;
    let k = whole.len() as int;
    assert(s[k] == '.');
    assert forall|i: int| 0 <= i < s.len() && i != k implies is_digit(#[trigger] s[i]) by {
        if i < k {
            assert(s[i] == whole[i]);
        } else {
            assert(s[i] == frac[i - k - 1]);
        }
    }
    crate::text::lemma_index_of(s, '.', 0);
    assert(crate::text::index_of(s, '.', 0) == Some(k));
    assert(s.take(k) =~= whole);
    assert(s.skip(k + 1) =~= frac);
    lemma_no_letter(s, 0);
    lemma_digits_join(whole, frac);
    assert(ten_to(6) == 1_000_000) by {
        reveal_with_fuel(ten_to, 7);
    }
    let all = whole + frac;
    assert(all.take(k + 6) =~= all);
    assert(is_digit(s[0]));
    reveal_strlit("inf");
    reveal_strlit("infinity");
    reveal_strlit("nan");
    let low = crate::text::lower(s);
    assert(low[0] == crate::text::lower_char(s[0]));
    assert(low[0] == s[0]);
    assert("inf"@[0] == 'i' && "infinity"@[0] == 'i' && "nan"@[0] == 'n');
}

proof fn lemma_no_letter(s: Seq<char>, from: int)
    requires
        forall|i: int| 0 <= i < s.len() ==> is_digit(#[trigger] s[i]) || s[i] == '.',
        0 <= from <= s.len(),
    ensures
        exponent_at(s, from) == s.len(),
    decreases s.len() - from,
{
    if from < s.len() {
        assert(is_digit(s[from]) || s[from] == '.');
        lemma_no_letter(s, from + 1);
    }
}

/// Minutes and seconds alone, and seconds alone, are times too.
pub proof fn lemma_short_clocks(m: nat, s: nat)
    ensures
        hms_us(dec(m) + ":"@ + dec2(s)) == Some(sat64((60 * m + s) * 1_000_000)),
        hms_us(dec(s)) == Some(sat64(s * 1_000_000)),
        hms_us(Seq::empty()) is None,
        hms_us("NOT_IMPLEMENTED"@) is None,
{
    let a = dec(m);
    let b = dec2(s);
    let c = dec(s);
    let t = a + ":"@ + b;
    lemma_dec_digits(m);
    lemma_dec_digits(s);
    lemma_dec2_digits(s);
    lemma_digits_number(a);
    lemma_digits_number(b);
    lemma_digits_number(c);
    reveal_strlit("NOT_IMPLEMENTED");
    lemma_split_digits(a, b);
    lemma_split_digits(b, b);
    lemma_split_digits(c, c);
    assert(is_digit(t[0])) by {
        assert(t[0] == a[0]);
    }
    assert(is_digit(t.last())) by {
        assert(t.last() == b.last());
        assert(is_digit(b[b.len() - 1]));
    }
    assert(crate::text::trim_start(t) == t);
    assert(crate::text::trimmed(t) == t);
    assert(t[0] != "NOT_IMPLEMENTED"@[0]);
    assert(crate::text::split(t, ':') =~= seq![a, b]);
    assert(is_digit(c[0]) && is_digit(c[c.len() - 1]));
    assert(crate::text::trim_start(c) == c);
    assert(crate::text::trimmed(c) == c);
    assert(c[0] != "NOT_IMPLEMENTED"@[0]);
    let none = Seq::<char>::empty();
    assert(crate::text::trim_start(none) == none);
    assert(crate::text::trimmed(none) == none);
    let n = "NOT_IMPLEMENTED"@;
    assert(crate::text::trim_start(n) == n);
    assert(crate::text::trimmed(n) == n);
}

} // verus!
