//! The spread of a voice's oscillators around its base frequency.

use crate::level::UNITY;
use vstd::prelude::*;

verus! {

/// The highest base frequency that can be detuned, in millihertz: half as
/// much again must still be a frequency.
pub const MAX_BASE_FREQUENCY: u64 = 0x7FFF_FFFF_FFFF_FFFF;

/// The frequency of oscillator `i` of `count`, for a base frequency and a
/// detune level. The oscillators are spread evenly over a range of
/// `base * detune / UNITY`, centred on the base: oscillator `i` lies
/// `(2 * i - (count - 1)) / (2 * (count - 1))` of the range above the base.
/// The distance from the base is rounded toward the base. One oscillator
/// alone sounds at the base.
pub open spec fn detuned_frequency(base: int, detune: int, count: int, i: int) -> int {
    if count <= 1 {
        base
    } else {
        let span = 2 * i - (count - 1);
        if span >= 0 {
            base + (base * detune * span) / (2 * (count - 1) * UNITY)
        } else {
            base - (base * detune * (-span)) / (2 * (count - 1) * UNITY)
        }
    }
}

/// No oscillator is detuned by more than half the base frequency.
pub proof fn lemma_detuned_range(base: int, detune: int, count: int, i: int)
    requires
        0 <= base,
        0 <= detune <= UNITY,
        0 <= i < count,
    ensures
        base - base / 2 <= detuned_frequency(base, detune, count, i) <= base + base / 2,
{
    if count > 1 {
        let span = 2 * i - (count - 1);
        let m = if span >= 0 {
            span
        } else {
            -span
        };
        let den = 2 * (count - 1) * 1_000_000;
        assert(0 <= (base * detune * m) / den <= base / 2) by (nonlinear_arith)
            requires
                0 <= base,
                0 <= detune <= 1_000_000,
                0 <= m <= count - 1,
                count > 1,
                den == 2 * (count - 1) * 1_000_000,
        ;
    }
}

/// One oscillator alone sounds at the base frequency, whatever the detune.
pub proof fn lemma_single_oscillator(base: int, detune: int)
    ensures
        detuned_frequency(base, detune, 1, 0) == base,
{
}

/// Without detune every oscillator sounds at the base frequency, however
/// many there are.
pub proof fn lemma_no_detune(base: int, count: int, i: int)
    ensures
        detuned_frequency(base, 0, count, i) == base,
{
    if count > 1 {
        let span = 2 * i - (count - 1);
        let den = 2 * (count - 1) * 1_000_000;
        assert(base * 0 * span == 0) by (nonlinear_arith);
        assert(base * 0 * (-span) == 0) by (nonlinear_arith);
        assert(0int / den == 0) by (nonlinear_arith)
            requires
                den > 0,
        ;
    }
}

/// Four oscillators lie half the range below the base, a sixth below, a
/// sixth above and half above: the steps between them are a third of the
/// range.
pub proof fn lemma_four_oscillators(base: int, detune: int)
    requires
        0 <= base,
        0 <= detune,
    ensures
        detuned_frequency(base, detune, 4, 0) == base - (base * detune) / (2 * UNITY),
        detuned_frequency(base, detune, 4, 1) == base - (base * detune) / (6 * UNITY),
        detuned_frequency(base, detune, 4, 2) == base + (base * detune) / (6 * UNITY),
        detuned_frequency(base, detune, 4, 3) == base + (base * detune) / (2 * UNITY),
{
    let range = base * detune;
    assert(range * 1 == range && range * 3 == 3 * range);
    assert((3 * range) / 6_000_000 == range / 2_000_000);
}

/// The spread is symmetric: an oscillator lies as far above the base as
/// its mirror image lies below.
pub proof fn lemma_detune_symmetric(base: int, detune: int, count: int, i: int)
    requires
        0 <= i < count,
    ensures
        detuned_frequency(base, detune, count, i) + detuned_frequency(
            base,
            detune,
            count,
            count - 1 - i,
        ) == 2 * base,
{
    if count > 1 {
        let span = 2 * i - (count - 1);
        let mirror = 2 * (count - 1 - i) - (count - 1);
        assert(mirror == -span);
        if span == 0 {
            let den = 2 * (count - 1) * 1_000_000;
            assert(base * detune * 0 == 0) by (nonlinear_arith);
        }
    }
}

/// Computes the frequency of oscillator `i` of `count`.
pub fn detune_oscillator(base: u64, detune: u32, count: u32, i: u32) -> (r: u64)
    requires
        base <= MAX_BASE_FREQUENCY,
        detune <= UNITY,
        i < count,
    ensures
        r == detuned_frequency(base as int, detune as int, count as int, i as int),
{
    if count <= 1 {
        return base;
    }
    proof {
        lemma_detuned_range(base as int, detune as int, count as int, i as int);
    }
    let steps: u64 = (count - 1) as u64;
    let twice: u64 = 2 * (i as u64);
    let den: u128 = 2 * (steps as u128) * (UNITY as u128);
    assert(base * detune <= 0x7FFF_FFFF_FFFF_FFFF * 1_000_000) by (nonlinear_arith)
        requires
            base <= 0x7FFF_FFFF_FFFF_FFFF,
            detune <= 1_000_000,
    ;
    let range: u128 = (base as u128) * (detune as u128);
    if twice >= steps {
        let span: u64 = twice - steps;
        assert(range * span <= 0x7FFF_FFFF_FFFF_FFFF * 1_000_000 * 0xFFFF_FFFF) by (nonlinear_arith)
            requires
                0 <= range <= 0x7FFF_FFFF_FFFF_FFFF * 1_000_000,
                0 <= span <= 0xFFFF_FFFF,
        ;
        let offset: u128 = range * (span as u128) / den;
        base + (offset as u64)
    } else {
        let span: u64 = steps - twice;
        assert(range * span <= 0x7FFF_FFFF_FFFF_FFFF * 1_000_000 * 0xFFFF_FFFF) by (nonlinear_arith)
            requires
                0 <= range <= 0x7FFF_FFFF_FFFF_FFFF * 1_000_000,
                0 <= span <= 0xFFFF_FFFF,
        ;
        let offset: u128 = range * (span as u128) / den;
        base - (offset as u64)
    }
}

/// Computes the frequencies of a bank of `count` oscillators, lowest first.
pub fn detuned_frequencies(base: u64, detune: u32, count: u32) -> (r: Vec<u64>)
    requires
        base <= MAX_BASE_FREQUENCY,
        detune <= UNITY,
    ensures
        r@.len() == count,
        forall|i: int|
            0 <= i < count ==> #[trigger] r@[i] == detuned_frequency(
                base as int,
                detune as int,
                count as int,
                i,
            ),
{
    let mut out: Vec<u64> = Vec::new();
    let mut i: u32 = 0;
    while i < count
        invariant
            i <= count,
            base <= MAX_BASE_FREQUENCY,
            detune <= UNITY,
            out@.len() == i,
            forall|j: int|
                0 <= j < i ==> #[trigger] out@[j] == detuned_frequency(
                    base as int,
                    detune as int,
                    count as int,
                    j,
                ),
        decreases count - i,
    {
        out.push(detune_oscillator(base, detune, count, i));
        i += 1;
    }
    out
}

} // verus!
