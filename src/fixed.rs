use vstd::prelude::*;
use vstd::arithmetic::div_mod::{lemma_fundamental_div_mod, lemma_mod_bound};

verus! {

/// Largest magnitude of a value handed to `scale_toward_zero`.
pub const MAX_SCALED: i64 = 0x1_0000_0000;

/// Largest factor handed to `scale_toward_zero`.
pub const MAX_FACTOR: u64 = 0x4000_0000;

pub open spec fn abs(c: int) -> int {
    if c >= 0 {
        c
    } else {
        -c
    }
}

/// `c * num / den`, rounded toward zero.
pub open spec fn scaled(c: int, num: int, den: int) -> int {
    if c >= 0 {
        c * num / den
    } else {
        -((-c) * num / den)
    }
}

/// The rounded quotient never exceeds the exact one in magnitude and keeps
/// the sign of `c`; it shrinks strictly when the factor is below one.
pub proof fn lemma_scaled(c: int, num: int, den: int)
    requires
        den > 0,
        num >= 0,
    ensures
        abs(scaled(c, num, den)) * den <= abs(c) * num,
        abs(scaled(c, num, den)) * den > abs(c) * num - den,
        c >= 0 ==> scaled(c, num, den) >= 0,
        c <= 0 ==> scaled(c, num, den) <= 0,
        num <= den ==> abs(scaled(c, num, den)) <= abs(c),
        num < den && c != 0 ==> abs(scaled(c, num, den)) < abs(c),
        c == 0 ==> scaled(c, num, den) == 0,
{
    let a = abs(c);
    let q = a * num / den;
    assert(a * num >= 0) by (nonlinear_arith)
        requires
            a >= 0,
            num >= 0,
    ;
    lemma_fundamental_div_mod(a * num, den);
    lemma_mod_bound(a * num, den);
    assert(q >= 0) by (nonlinear_arith)
        requires
            a * num == den * q + (a * num) % den,
            (a * num) % den < den,
            a * num >= 0,
            den > 0,
    ;
    assert(abs(scaled(c, num, den)) == q);
    assert(q * den <= a * num);
    if num <= den {
        assert(q <= a) by (nonlinear_arith)
            requires
                q * den <= a * num,
                num <= den,
                den > 0,
                a >= 0,
        ;
    }
    if num < den && c != 0 {
        assert(q < a) by (nonlinear_arith)
            requires
                q * den <= a * num,
                num < den,
                den > 0,
                a > 0,
        ;
    }
    if c == 0 {
        assert(a == 0);
        assert(a * num == 0) by (nonlinear_arith)
            requires
                a == 0,
        ;
    }
}

/// `c * num / den`, rounded toward zero.
pub fn scale_toward_zero(c: i64, num: u64, den: u64) -> (r: i64)
    requires
        -MAX_SCALED <= c <= MAX_SCALED,
        num <= MAX_FACTOR,
        den > 0,
    ensures
        r == scaled(c as int, num as int, den as int),
{
    let a: u64 = if c >= 0 { c as u64 } else { (-c) as u64 };
    assert(a * num <= MAX_SCALED * MAX_FACTOR) by (nonlinear_arith)
        requires
            a <= MAX_SCALED,
            num <= MAX_FACTOR,
    ;
    let q: u64 = a * num / den;
    proof {
        lemma_scaled(c as int, num as int, den as int);
        assert(q * den <= a * num);
        assert(q <= a * num) by (nonlinear_arith)
            requires
                q * den <= a * num,
                den > 0,
                q >= 0,
        ;
    }
    if c >= 0 {
        q as i64
    } else {
        -(q as i64)
    }
}

/// The smallest `r` with `r * r >= n`.
pub fn ceil_sqrt(n: u64) -> (r: u64)
    ensures
        r * r >= n,
        r == 0 || (r - 1) * (r - 1) < n,
        r <= 0x1_0000_0000,
{
    if n == 0 {
        return 0;
    }
    let mut lo: u64 = 0;
    let mut hi: u64 = 0x1_0000_0000;
    assert(hi * hi >= n) by (nonlinear_arith)
        requires
            hi == 0x1_0000_0000u64,
            n <= u64::MAX,
    ;
    while hi - lo > 1
        invariant
            lo < hi <= 0x1_0000_0000,
            lo * lo < n,
            hi * hi >= n,
        decreases hi - lo,
    {
        let mid: u64 = lo + (hi - lo) / 2;
        assert(mid * mid <= 0x1_0000_0000u64 * 0x1_0000_0000u64) by (nonlinear_arith)
            requires
                mid <= 0x1_0000_0000u64,
        ;
        let sq: u128 = (mid as u128) * (mid as u128);
        if sq >= n as u128 {
            hi = mid;
        } else {
            lo = mid;
        }
    }
    hi
}

} // verus!
