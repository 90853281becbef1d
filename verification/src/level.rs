//! Fixed-point levels: gains and samples in millionths of full scale.

use vstd::prelude::*;

verus! {

/// Full scale: the level that stands for 1.0.
pub const UNITY: u32 = 1_000_000;

/// `x` multiplied by the gain `level / UNITY`, rounded toward zero.
pub open spec fn scaled(x: int, level: int) -> int {
    if x >= 0 {
        (x * level) / (UNITY as int)
    } else {
        -(((-x) * level) / (UNITY as int))
    }
}

/// A gain of at most full scale never enlarges a value, and keeps its sign.
pub proof fn lemma_scaled_bounds(x: int, level: int)
    requires
        0 <= level <= UNITY,
    ensures
        x >= 0 ==> 0 <= scaled(x, level) <= x,
        x <= 0 ==> x <= scaled(x, level) <= 0,
        scaled(x, UNITY as int) == x,
        scaled(x, 0) == 0,
        scaled(-x, level) == -scaled(x, level),
{
    let m = if x >= 0 { x } else { -x };
    assert(0 <= m * level <= m * 1_000_000) by (nonlinear_arith)
        requires
            0 <= m,
            0 <= level <= 1_000_000,
    ;
    assert((m * 1_000_000) / 1_000_000 == m);
    assert(m * 0 == 0);
}

/// Scaling keeps the order of values.
pub proof fn lemma_scaled_monotone(x: int, y: int, level: int)
    requires
        0 <= level <= UNITY,
        x <= y,
    ensures
        scaled(x, level) <= scaled(y, level),
{
    lemma_scaled_bounds(x, level);
    lemma_scaled_bounds(y, level);
    if x >= 0 {
        assert(x * level <= y * level) by (nonlinear_arith)
            requires
                0 <= x <= y,
                0 <= level,
        ;
    } else if y < 0 {
        assert((-y) * level <= (-x) * level) by (nonlinear_arith)
            requires
                x <= y < 0,
                0 <= level,
        ;
    }
}

/// The largest magnitude that [`scale`] takes.
pub const SCALE_LIMIT: i128 = 0x4000_0000_0000_0000_0000_0000_0000_0000;

/// Multiplies a value by a gain of at most full scale.
pub fn scale(x: i128, level: u32) -> (r: i128)
    requires
        level <= UNITY,
        -SCALE_LIMIT <= x <= SCALE_LIMIT,
    ensures
        r == scaled(x as int, level as int),
{
    let negative = x < 0;
    let magnitude: u128 = if negative {
        (-x) as u128
    } else {
        x as u128
    };
    let whole: u128 = magnitude / (UNITY as u128);
    let part: u128 = magnitude % (UNITY as u128);
    proof {
        lemma_scaled_bounds(x as int, level as int);
        assert(0 <= whole * level <= whole * 1_000_000 && 0 <= part * level <= 1_000_000 * 1_000_000
            && magnitude * level == (whole * level) * 1_000_000 + part * level) by (nonlinear_arith)
            requires
                0 <= whole,
                0 <= part < 1_000_000,
                0 <= level <= 1_000_000,
                magnitude == whole * 1_000_000 + part,
        ;
    }
    let quotient: u128 = whole * (level as u128) + part * (level as u128) / (UNITY as u128);
    if negative {
        -(quotient as i128)
    } else {
        quotient as i128
    }
}

/// The quotient `x / den` as a level, rounded toward zero.
pub open spec fn fraction(x: int, den: int) -> int {
    if x >= 0 {
        (x * (UNITY as int)) / den
    } else {
        -(((-x) * (UNITY as int)) / den)
    }
}

/// A quotient of magnitude at most one is a level of magnitude at most
/// full scale.
pub proof fn lemma_fraction_bounds(x: int, den: int)
    requires
        den > 0,
        -den <= x <= den,
    ensures
        -UNITY <= fraction(x, den) <= UNITY,
        x >= 0 ==> fraction(x, den) >= 0,
        x <= 0 ==> fraction(x, den) <= 0,
        x < den ==> fraction(x, den) < UNITY,
        fraction(den, den) == UNITY,
        fraction(-x, den) == -fraction(x, den),
{
    let m = if x >= 0 { x } else { -x };
    assert(0 <= (m * 1_000_000) / den <= 1_000_000 && (m < den ==> (m * 1_000_000) / den
        < 1_000_000) && (m == den ==> (m * 1_000_000) / den == 1_000_000)) by (nonlinear_arith)
        requires
            0 <= m <= den,
            den > 0,
    ;
    assert((den * 1_000_000) / den == 1_000_000) by (nonlinear_arith)
        requires
            den > 0,
    ;
}

/// Turns the quotient `x / den`, of magnitude at most one, into a level.
pub fn fraction_level(x: i128, den: u64) -> (r: i32)
    requires
        den > 0,
        -den <= x <= den,
    ensures
        r == fraction(x as int, den as int),
        -UNITY <= r <= UNITY,
{
    let negative = x < 0;
    let magnitude: u128 = if negative {
        (-x) as u128
    } else {
        x as u128
    };
    proof {
        lemma_fraction_bounds(x as int, den as int);
    }
    let quotient: u128 = magnitude * (UNITY as u128) / (den as u128);
    if negative {
        -(quotient as i32)
    } else {
        quotient as i32
    }
}

/// Whether `r` is the integer square root of `x`.
pub open spec fn is_floor_sqrt(x: nat, r: nat) -> bool {
    r * r <= x < (r + 1) * (r + 1)
}

/// The largest integer whose square does not exceed `x`.
pub fn floor_sqrt(x: u64) -> (r: u64)
    ensures
        is_floor_sqrt(x as nat, r as nat),
        r < 0x1_0000_0000,
{
    let mut lo: u64 = 0;
    let mut hi: u64 = 0x1_0000_0000;
    assert(0x1_0000_0000u64 * 0x1_0000_0000u64 > x) by (nonlinear_arith)
        requires
            x <= u64::MAX,
    ;
    while hi - lo > 1
        invariant
            lo < hi <= 0x1_0000_0000,
            lo * lo <= x < hi * hi,
        decreases hi - lo,
    {
        let mid: u64 = lo + (hi - lo) / 2;
        assert(mid * mid <= 0xFFFF_FFFF * 0xFFFF_FFFF) by (nonlinear_arith)
            requires
                mid <= 0xFFFF_FFFF,
        ;
        if mid * mid <= x {
            lo = mid;
        } else {
            hi = mid;
        }
    }
    lo
}

/// Whether `g` is the gain `1 / sqrt(n)`, rounded down to a level. For
/// `n` of one or less the gain is full scale.
pub open spec fn is_root_gain(n: nat, g: nat) -> bool {
    if n <= 1 {
        g == UNITY
    } else {
        g * g * n <= UNITY * UNITY < (g + 1) * (g + 1) * n
    }
}

/// The gain `1 / sqrt(n)` as a level.
pub open spec fn root_gain(n: nat) -> nat {
    choose|g: nat| is_root_gain(n, g)
}

/// Only one level is the root gain of `n`.
pub proof fn lemma_root_gain_unique(n: nat, g: nat, h: nat)
    requires
        is_root_gain(n, g),
        is_root_gain(n, h),
    ensures
        g == h,
{
    if n > 1 {
        if g < h {
            assert((g + 1) * (g + 1) * n <= h * h * n) by (nonlinear_arith)
                requires
                    g + 1 <= h,
                    n > 0,
            ;
        } else if h < g {
            assert((h + 1) * (h + 1) * n <= g * g * n) by (nonlinear_arith)
                requires
                    h + 1 <= g,
                    n > 0,
            ;
        }
    }
}

/// A level that meets the bracket is the root gain.
pub proof fn lemma_root_gain_is(n: nat, g: nat)
    requires
        is_root_gain(n, g),
    ensures
        root_gain(n) == g,
{
    lemma_root_gain_unique(n, g, root_gain(n));
}

/// The root gain never exceeds full scale.
pub proof fn lemma_root_gain_bound(n: nat, g: nat)
    requires
        is_root_gain(n, g),
    ensures
        g <= UNITY,
{
    if n > 1 && g > UNITY {
        assert(g * g * n > 1_000_000 * 1_000_000) by (nonlinear_arith)
            requires
                g > 1_000_000,
                n > 1,
        ;
    }
}

/// Computes the gain `1 / sqrt(n)`.
pub fn compute_root_gain(n: u64) -> (g: u32)
    ensures
        g == root_gain(n as nat),
        is_root_gain(n as nat, g as nat),
        g <= UNITY,
{
    if n <= 1 {
        proof {
            lemma_root_gain_is(n as nat, UNITY as nat);
        }
        return UNITY;
    }
    let square: u64 = 1_000_000_000_000;
    let quotient: u64 = square / n;
    let root: u64 = floor_sqrt(quotient);
    proof {
        let q = quotient as int;
        let r = root as int;
        let m = n as int;
        assert(q * m <= square && square < (q + 1) * m) by (nonlinear_arith)
            requires
                q == square as int / m,
                m > 0,
        ;
        assert(r * r * m <= q * m) by (nonlinear_arith)
            requires
                r * r <= q,
                m > 0,
        ;
        assert((q + 1) * m <= (r + 1) * (r + 1) * m) by (nonlinear_arith)
            requires
                q + 1 <= (r + 1) * (r + 1),
                m > 0,
        ;
        assert(is_root_gain(n as nat, root as nat));
        lemma_root_gain_bound(n as nat, root as nat);
        lemma_root_gain_is(n as nat, root as nat);
    }
    root as u32
}

} // verus!
