//! Numbers with one decimal place, as they are shown.

use vstd::prelude::*;

use crate::num::push_dec;

verus! {

/// The nearest whole number to a fraction; halfway, the even one.
pub open spec fn half_even(n: int, d: int) -> int {
    let q = n / d;
    let r = n % d;
    if 2 * r > d || (2 * r == d && q % 2 == 1) {
        q + 1
    } else {
        q
    }
}

/// A number of tenths in decimal.
pub open spec fn tenths(n: int) -> Seq<char> {
    crate::num::dec((n / 10) as nat) + "."@ + crate::num::dec((n % 10) as nat)
}

/// A number without its sign.
pub open spec fn magnitude(n: int) -> int {
    if n < 0 {
        -n
    } else {
        n
    }
}

/// A number of tenths, with a sign only where it is below zero.
pub open spec fn plain_tenths(n: int) -> Seq<char> {
    (if n < 0 {
        "-"@
    } else {
        ""@
    }) + tenths(magnitude(n))
}

/// A number of tenths, with its sign.
pub open spec fn signed_tenths(n: int) -> Seq<char> {
    (if n < 0 {
        "-"@
    } else {
        "+"@
    }) + tenths(magnitude(n))
}

/// The nearest number of tenths to one of thousandths; halfway, the even one.
pub open spec fn to_tenths(milli: int) -> int {
    half_even(milli, 100)
}

fn half_even_of(n: u64, d: u64) -> (r: u64)
    requires
        0 < d < 0x4000_0000_0000_0000,
        n < u64::MAX,
    ensures
        r == half_even(n as int, d as int),
        r <= n + 1,
{
    let q: u64 = n / d;
    let r: u64 = n % d;
    proof {
        assert(q <= n) by (nonlinear_arith)
            requires
                q == n / d,
                d > 0,
        ;
    }
    if 2 * r > d || (2 * r == d && q % 2 == 1) {
        q + 1
    } else {
        q
    }
}

fn size(n: i64) -> (r: u64)
    requires
        n > i64::MIN,
    ensures
        r == magnitude(n as int),
{
    if n < 0 {
        (-n) as u64
    } else {
        n as u64
    }
}

/// Appends a number of tenths.
pub fn push_tenths(out: &mut String, n: u64)
    ensures
        final(out)@ == old(out)@ + tenths(n as int),
{
    let ghost before = out@;
    let mut digits: String = String::new();
    push_dec(&mut digits, n / 10);
    digits.push_str(".");
    push_dec(&mut digits, n % 10);
    proof {
        assert(digits@ =~= tenths(n as int));
    }
    out.push_str(digits.as_str());
}

/// Appends a number of tenths, with a sign only where it is below zero.
pub fn push_plain_tenths(out: &mut String, n: i64)
    requires
        n > i64::MIN,
    ensures
        final(out)@ == old(out)@ + plain_tenths(n as int),
{
    let ghost before = out@;
    let mut text: String = if n < 0 {
        "-".to_owned()
    } else {
        "".to_owned()
    };
    push_tenths(&mut text, size(n));
    out.push_str(text.as_str());
}

/// Appends a number of tenths, with its sign.
pub fn push_signed_tenths(out: &mut String, n: i64)
    requires
        n > i64::MIN,
    ensures
        final(out)@ == old(out)@ + signed_tenths(n as int),
{
    let ghost before = out@;
    let mut text: String = if n < 0 {
        "-".to_owned()
    } else {
        "+".to_owned()
    };
    push_tenths(&mut text, size(n));
    out.push_str(text.as_str());
}

/// A time in milliseconds, in seconds.
pub open spec fn seconds(ms: int) -> Seq<char> {
    tenths(to_tenths(ms))
}

/// Appends a time in milliseconds, in seconds.
pub fn push_seconds(out: &mut String, ms: u32)
    ensures
        final(out)@ == old(out)@ + seconds(ms as int),
{
    push_tenths(out, half_even_of(ms as u64, 100));
}

/// A number of thousandths, in tenths and with its sign.
pub open spec fn signed_milli(milli: int) -> Seq<char> {
    (if milli < 0 {
        "-"@
    } else {
        "+"@
    }) + tenths(to_tenths(magnitude(milli)))
}

/// Appends a number of thousandths, in tenths and with its sign.
pub fn push_signed_milli(out: &mut String, milli: i32)
    ensures
        final(out)@ == old(out)@ + signed_milli(milli as int),
{
    let ghost before = out@;
    let mut text: String = if milli < 0 {
        "-".to_owned()
    } else {
        "+".to_owned()
    };
    push_tenths(&mut text, half_even_of(size(milli as i64), 100));
    out.push_str(text.as_str());
}

/// The nearest whole number of seconds to a time in milliseconds; halfway, the
/// even one.
pub fn whole_seconds(ms: u32) -> (r: u64)
    ensures
        r == half_even(ms as int, 1000),
{
    half_even_of(ms as u64, 1000)
}

// ---------------------------------------------------------------------------
// Quotients with a mantissa of 24 bits
// ---------------------------------------------------------------------------

/// Two to the 23rd.
pub const HALF: u64 = 0x80_0000;

/// A number doubled until it reaches a goal, and by how much it was
/// multiplied.
pub open spec fn doubled(x: int, goal: int, s: int) -> (int, int)
    decreases
            if x < goal {
                goal - x
            } else {
                0
            },
{
    if x >= goal || x <= 0 {
        (x, s)
    } else {
        doubled(2 * x, goal, 2 * s)
    }
}

/// A limit doubled until it is above a number, with another number and by how
/// much both were multiplied.
pub open spec fn raised(x: int, limit: int, d: int, t: int) -> (int, int)
    decreases
            if limit <= x {
                x - limit + 1
            } else {
                0
            },
{
    if x < limit || limit <= 0 {
        (d, t)
    } else {
        raised(x, 2 * limit, 2 * d, 2 * t)
    }
}

/// The quotient of two numbers as a binary fraction with a mantissa of 24
/// bits: the mantissa, by what it is to be divided, and by what multiplied.
pub open spec fn binary32(n: int, d: int) -> (int, int, int) {
    if n < d * 2 * HALF {
        let (x, s) = doubled(n, d * HALF, 1);
        (half_even(x, d), s, 1)
    } else {
        let (dt, t) = raised(n, d * 2 * HALF, d, 1);
        (half_even(n, dt), 1, t)
    }
}

/// A whole number, as such a fraction holds it.
pub open spec fn held32(n: int) -> int {
    if n < 2 * HALF {
        n
    } else {
        let (dt, t) = raised(n, 2 * HALF, 1, 1);
        half_even(n, dt) * t
    }
}

/// The quotient of two numbers in tenths, where both the number and the
/// quotient are held as such fractions.
pub open spec fn quotient_tenths(n: int, d: int) -> int {
    if n == 0 {
        0
    } else {
        let (m, s, t) = binary32(held32(n), d);
        half_even(10 * m * t, s)
    }
}

fn double_to(n: u64, goal: u64) -> (r: (u64, u64))
    requires
        0 < n,
        goal <= 0x1_0000_0000_0000,
    ensures
        (r.0 as int, r.1 as int) == doubled(n as int, goal as int, 1),
        0 < r.1 <= r.0,
        r.0 < 2 * goal || r.0 == n,
{
    let mut x: u64 = n;
    let mut s: u64 = 1;
    while x < goal
        invariant
            0 < s <= x,
            x < 2 * goal || x == n,
            goal <= 0x1_0000_0000_0000,
            doubled(x as int, goal as int, s as int) == doubled(n as int, goal as int, 1),
        decreases
                if x < goal {
                    goal - x
                } else {
                    0
                },
    {
        x = 2 * x;
        s = 2 * s;
    }
    (x, s)
}

fn raise_above(n: u64, d: u64) -> (r: (u64, u64))
    requires
        0 < d <= 0x400,
        n <= 0x2_0000_0000,
    ensures
        (r.0 as int, r.1 as int) == raised(n as int, d * 2 * HALF, d as int, 1),
        0 < r.1 <= r.0 <= 0x800,
{
    let mut limit: u64 = d * 2 * HALF;
    let mut dt: u64 = d;
    let mut t: u64 = 1;
    while n >= limit
        invariant
            n <= 0x2_0000_0000,
            0 < t <= dt,
            limit == dt * 2 * HALF,
            dt <= 0x400 || limit <= 2 * n,
            raised(n as int, limit as int, dt as int, t as int) == raised(
                n as int,
                d * 2 * HALF,
                d as int,
                1,
            ),
        decreases
                if limit <= n {
                    n - limit + 1
                } else {
                    0
                },
    {
        limit = 2 * limit;
        dt = 2 * dt;
        t = 2 * t;
    }
    (dt, t)
}

fn to_binary32(n: u64, d: u64) -> (r: (u64, u64, u64))
    requires
        0 < n <= 0x2_0000_0000,
        0 < d <= 0x400,
    ensures
        (r.0 as int, r.1 as int, r.2 as int) == binary32(n as int, d as int),
        0 < r.1 <= 0x8_0000_0000,
        0 < r.2 <= 0x800,
        r.0 <= 0x9_0000_0000,
{
    if n < d * 2 * HALF {
        let (x, s): (u64, u64) = double_to(n, d * HALF);
        (half_even_of(x, d), s, 1)
    } else {
        let (dt, t): (u64, u64) = raise_above(n, d);
        (half_even_of(n, dt), 1, t)
    }
}

proof fn lemma_raised_same(x: int, limit: int, d: int)
    ensures
        raised(x, limit, d, d).0 == raised(x, limit, d, d).1,
    decreases
            if limit <= x {
                x - limit + 1
            } else {
                0
            },
{
    if x >= limit && limit > 0 {
        lemma_raised_same(x, 2 * limit, 2 * d);
    }
}

proof fn lemma_nearest_multiple(n: int, d: int)
    requires
        n >= d,
        d > 0,
    ensures
        0 < half_even(n, d) * d <= n + d,
{
    let q = n / d;
    vstd::arithmetic::div_mod::lemma_fundamental_div_mod(n, d);
    assert(q >= 1 && 0 <= n % d < d && q * d == d * q && (q + 1) * d == q * d + d)
        by (nonlinear_arith)
        requires
            q == n / d,
            n >= d,
            d > 0,
    ;
    assert(q * d > 0) by (nonlinear_arith)
        requires
            q >= 1,
            d > 0,
    ;
}

/// The quotient of two numbers in tenths, where both the number and the
/// quotient are held as binary fractions with a mantissa of 24 bits.
pub fn quotient(n: u32, d: u32) -> (r: u64)
    requires
        0 < d <= 0x400,
    ensures
        r == quotient_tenths(n as int, d as int),
        r <= 0x4_0000_0000_0000,
{
    if n == 0 {
        return 0;
    }
    let held: u64 = if (n as u64) < 2 * HALF {
        n as u64
    } else {
        let (dt, t): (u64, u64) = raise_above(n as u64, 1);
        let m: u64 = half_even_of(n as u64, dt);
        proof {
            lemma_raised_same(n as int, 2 * HALF, 1);
            lemma_nearest_multiple(n as int, dt as int);
        }
        m * t
    };
    let (m, s, t): (u64, u64, u64) = to_binary32(held, d as u64);
    proof {
        assert(10 * m * t <= 0x5a * 0x1_0000_0000 * 0x800) by (nonlinear_arith)
            requires
                m <= 0x9_0000_0000,
                t <= 0x800,
        ;
    }
    half_even_of(10 * m * t, s)
}

/// The nearest whole number to a fraction is no more than half away; halfway it
/// is even.
pub proof fn lemma_half_even(n: int, d: int)
    requires
        0 <= n,
        0 < d,
    ensures
        -d <= 2 * (n - half_even(n, d) * d) <= d,
        2 * (n - half_even(n, d) * d) == d || 2 * (n - half_even(n, d) * d) == -d ==> half_even(n, d)
            % 2 == 0,
        n % d == 0 ==> half_even(n, d) == n / d,
{
    let q = n / d;
    let r = n % d;
    assert(n == q * d + r && 0 <= r < d) by (nonlinear_arith)
        requires
            0 < d,
            q == n / d,
            r == n % d,
    ;
    assert((q + 1) * d == q * d + d) by (nonlinear_arith);
}

/// A sign stands before a number below zero, and where it is asked for before
/// every other too; behind it stands the number, with one digit behind the
/// point.
pub proof fn lemma_signed_tenths(whole: nat, tenth: nat)
    requires
        tenth < 10,
    ensures
        tenths((10 * whole + tenth) as int) == crate::num::dec(whole) + "."@ + crate::num::dec(
            tenth,
        ),
        signed_tenths((10 * whole + tenth) as int) == "+"@ + tenths((10 * whole + tenth) as int),
        10 * whole + tenth > 0 ==> signed_tenths(-((10 * whole + tenth) as int)) == "-"@ + tenths(
            (10 * whole + tenth) as int,
        ),
        plain_tenths((10 * whole + tenth) as int) == ""@ + tenths((10 * whole + tenth) as int),
        10 * whole + tenth > 0 ==> plain_tenths(-((10 * whole + tenth) as int)) == "-"@ + tenths(
            (10 * whole + tenth) as int,
        ),
{
}

/// Whole tenths of a second are shown as they are.
pub proof fn lemma_seconds(n: nat)
    ensures
        seconds((100 * n) as int) == tenths(n as int),
        signed_milli((100 * n) as int) == "+"@ + tenths(n as int),
        n > 0 ==> signed_milli(-((100 * n) as int)) == "-"@ + tenths(n as int),
{
    lemma_half_even((100 * n) as int, 100);
}

} // verus!
