//! The arithmetic of mixing: from the samples of a voice's oscillators to
//! the sample of the voice, and from the samples of the voices to their
//! mix. Nothing here draws a sample; the samples come as arguments.

use crate::level::{
    compute_root_gain, is_root_gain, lemma_root_gain_is, lemma_scaled_bounds,
    lemma_scaled_monotone, root_gain, scale, scaled, UNITY,
};
use vstd::prelude::*;

verus! {

/// The sum of the samples of a bank of oscillators.
pub open spec fn sample_sum(samples: Seq<i32>) -> int
    decreases samples.len(),
{
    if samples.len() == 0 {
        0
    } else {
        sample_sum(samples.drop_last()) + samples.last()
    }
}

/// The sample of a voice from the samples of its oscillators: their sum,
/// brought down by the square root of their number, then by the amplitude
/// of the envelope, then by the master volume.
pub open spec fn voice_level(samples: Seq<i32>, amplitude: int, volume: int) -> int {
    scaled(scaled(scaled(sample_sum(samples), root_gain(samples.len()) as int), amplitude), volume)
}

/// The loudest sample of a voice of `count` oscillators: that of
/// oscillators which all stand at full scale.
pub open spec fn peak_level(count: nat, amplitude: int, volume: int) -> int {
    scaled(scaled(scaled(count * UNITY, root_gain(count) as int), amplitude), volume)
}

/// The sum of the samples of a round of voices.
pub open spec fn level_sum(outputs: Seq<i64>) -> int
    decreases outputs.len(),
{
    if outputs.len() == 0 {
        0
    } else {
        level_sum(outputs.drop_last()) + outputs.last()
    }
}

/// The sum of a bank grows by each sample in turn.
pub proof fn lemma_sample_sum_step(samples: Seq<i32>, j: int)
    requires
        0 <= j < samples.len(),
    ensures
        sample_sum(samples.take(j + 1)) == sample_sum(samples.take(j)) + samples[j],
{
    assert(samples.take(j + 1).drop_last() =~= samples.take(j));
}

/// The sum of a round grows by each voice in turn.
pub proof fn lemma_level_sum_step(outputs: Seq<i64>, j: int)
    requires
        0 <= j < outputs.len(),
    ensures
        level_sum(outputs.take(j + 1)) == level_sum(outputs.take(j)) + outputs[j],
{
    assert(outputs.take(j + 1).drop_last() =~= outputs.take(j));
}

/// A round of voices that each keep to a bound sums to at most the bound
/// times their number.
pub proof fn lemma_level_sum_bound(outputs: Seq<i64>, bound: int)
    requires
        0 <= bound,
        forall|i: int| 0 <= i < outputs.len() ==> -bound <= #[trigger] outputs[i] <= bound,
    ensures
        -(outputs.len() * bound) <= level_sum(outputs) <= outputs.len() * bound,
    decreases outputs.len(),
{
    if outputs.len() > 0 {
        let rest = outputs.drop_last();
        assert forall|i: int| 0 <= i < rest.len() implies -bound <= #[trigger] rest[i] <= bound by {
            assert(rest[i] == outputs[i]);
        }
        lemma_level_sum_bound(rest, bound);
        assert(outputs.len() * bound == rest.len() * bound + bound) by (nonlinear_arith)
            requires
                outputs.len() == rest.len() + 1,
        ;
    } else {
        assert(outputs.len() * bound == 0) by (nonlinear_arith)
            requires
                outputs.len() == 0,
        ;
    }
}

/// The sample of a voice keeps to its peak, and the peak to the number of
/// its oscillators.
pub proof fn lemma_voice_level_peak(samples: Seq<i32>, amplitude: int, volume: int)
    requires
        forall|j: int| 0 <= j < samples.len() ==> -UNITY <= #[trigger] samples[j] <= UNITY,
        0 <= amplitude <= UNITY,
        0 <= volume <= UNITY,
    ensures
        -peak_level(samples.len(), amplitude, volume) <= voice_level(samples, amplitude, volume)
            <= peak_level(samples.len(), amplitude, volume),
        0 <= peak_level(samples.len(), amplitude, volume) <= samples.len() * UNITY,
        amplitude == 0 || volume == 0 ==> peak_level(samples.len(), amplitude, volume) == 0,
{
    lemma_sample_sum_range(samples);
    let count = samples.len();
    let gain = root_gain(count) as int;
    lemma_root_gain_range(count);
    let full = count * UNITY;
    let sum = sample_sum(samples);
    lemma_scaled_bounds(full, gain);
    lemma_scaled_bounds(scaled(full, gain), amplitude);
    lemma_scaled_bounds(scaled(scaled(full, gain), amplitude), volume);
    lemma_scaled_bounds(-full, gain);
    lemma_scaled_bounds(scaled(-full, gain), amplitude);
    lemma_scaled_bounds(scaled(scaled(-full, gain), amplitude), volume);
    lemma_scaled_monotone(sum, full, gain);
    lemma_scaled_monotone(-full, sum, gain);
    lemma_scaled_monotone(scaled(sum, gain), scaled(full, gain), amplitude);
    lemma_scaled_monotone(scaled(-full, gain), scaled(sum, gain), amplitude);
    lemma_scaled_monotone(
        scaled(scaled(sum, gain), amplitude),
        scaled(scaled(full, gain), amplitude),
        volume,
    );
    lemma_scaled_monotone(
        scaled(scaled(-full, gain), amplitude),
        scaled(scaled(sum, gain), amplitude),
        volume,
    );
    lemma_scaled_bounds(scaled(full, gain), 0);
    lemma_scaled_bounds(0, volume);
}

/// At full amplitude a voice gives the sum of its samples, brought down by
/// the square root of their number and by the master volume; one
/// oscillator at full scale gives the master volume itself.
pub proof fn lemma_voice_level_full(samples: Seq<i32>, volume: int)
    requires
        0 <= volume <= UNITY,
    ensures
        voice_level(samples, UNITY as int, volume) == scaled(
            scaled(sample_sum(samples), root_gain(samples.len()) as int),
            volume,
        ),
        voice_level(seq![UNITY as i32], UNITY as int, volume) == volume,
{
    lemma_scaled_bounds(scaled(sample_sum(samples), root_gain(samples.len()) as int), UNITY as int);
    let one = seq![UNITY as i32];
    assert(one.drop_last() =~= Seq::<i32>::empty());
    assert(sample_sum(one) == sample_sum(one.drop_last()) + one.last());
    assert(sample_sum(one.drop_last()) == 0);
    lemma_root_gain_is(1, UNITY as nat);
    lemma_scaled_bounds(UNITY as int, UNITY as int);
    assert((1_000_000 * volume) / 1_000_000 == volume);
}

/// The sum of samples that are levels keeps to their number.
pub proof fn lemma_sample_sum_range(samples: Seq<i32>)
    requires
        forall|j: int| 0 <= j < samples.len() ==> -UNITY <= #[trigger] samples[j] <= UNITY,
    ensures
        -(samples.len() * UNITY) <= sample_sum(samples) <= samples.len() * UNITY,
    decreases samples.len(),
{
    if samples.len() > 0 {
        let rest = samples.drop_last();
        assert forall|j: int| 0 <= j < rest.len() implies -UNITY <= #[trigger] rest[j] <= UNITY by {
            assert(rest[j] == samples[j]);
        }
        lemma_sample_sum_range(rest);
    }
}

/// The root gain of every number is a level.
pub proof fn lemma_root_gain_range(n: nat)
    ensures
        0 <= root_gain(n) <= UNITY,
{
    if n <= 1 {
        lemma_root_gain_is(n, UNITY as nat);
    } else {
        let high = UNITY as nat + 1;
        assert(0 * 0 * n <= UNITY * UNITY < high * high * n) by (nonlinear_arith)
            requires
                n > 1,
                high == UNITY + 1,
        ;
        let g = lemma_root_search(n, 0, high);
        lemma_root_gain_is(n, g);
    }
}

/// Between a level whose square is small enough and one whose square is
/// too large lies the root gain.
pub proof fn lemma_root_search(n: nat, low: nat, high: nat) -> (g: nat)
    requires
        n > 1,
        low < high <= UNITY + 1,
        low * low * n <= UNITY * UNITY < high * high * n,
    ensures
        is_root_gain(n, g),
        g <= UNITY,
    decreases high - low,
{
    if high == low + 1 {
        low
    } else {
        let mid = (low + high) / 2;
        if mid * mid * n <= UNITY * UNITY {
            lemma_root_search(n, mid, high)
        } else {
            lemma_root_search(n, low, mid)
        }
    }
}

/// Adds four samples at once with `wide`: `i32x4::reduce_add` on the
/// vector of the four, which is their sum as long as that fits.
#[verifier::external_body]
fn sum_lanes(a: i32, b: i32, c: i32, d: i32) -> (r: i32)
    requires
        i32::MIN <= a + b + c + d <= i32::MAX,
    ensures
        r == a + b + c + d,
{
    wide::i32x4::new([a, b, c, d]).reduce_add()
}

/// The sample of a voice from the samples of its oscillators. The samples
/// are added four at a time, and one by one where fewer are left.
pub fn scale_voice(samples: &Vec<i32>, amplitude: u32, volume: u32) -> (r: i64)
    requires
        samples@.len() <= u32::MAX,
        forall|j: int| 0 <= j < samples@.len() ==> -UNITY <= #[trigger] samples@[j] <= UNITY,
        amplitude <= UNITY,
        volume <= UNITY,
    ensures
        r == voice_level(samples@, amplitude as int, volume as int),
        -peak_level(samples@.len(), amplitude as int, volume as int) <= r <= peak_level(
            samples@.len(),
            amplitude as int,
            volume as int,
        ),
        peak_level(samples@.len(), amplitude as int, volume as int) <= samples@.len() * UNITY,
{
    let count: usize = samples.len();
    let mut sum: i64 = 0;
    let mut j: usize = 0;
    while count - j >= 4
        invariant
            count == samples@.len(),
            count <= u32::MAX,
            j <= count,
            forall|k: int| 0 <= k < count ==> -UNITY <= #[trigger] samples@[k] <= UNITY,
            -(j * UNITY) <= sum <= j * UNITY,
            sum == sample_sum(samples@.take(j as int)),
        decreases count - j,
    {
        proof {
            lemma_sample_sum_step(samples@, j as int);
            lemma_sample_sum_step(samples@, j + 1);
            lemma_sample_sum_step(samples@, j + 2);
            lemma_sample_sum_step(samples@, j + 3);
        }
        let four = sum_lanes(samples[j], samples[j + 1], samples[j + 2], samples[j + 3]);
        sum = sum + four as i64;
        j = j + 4;
    }
    while j < count
        invariant
            count == samples@.len(),
            count <= u32::MAX,
            j <= count,
            forall|k: int| 0 <= k < count ==> -UNITY <= #[trigger] samples@[k] <= UNITY,
            -(j * UNITY) <= sum <= j * UNITY,
            sum == sample_sum(samples@.take(j as int)),
        decreases count - j,
    {
        proof {
            lemma_sample_sum_step(samples@, j as int);
        }
        sum = sum + samples[j] as i64;
        j = j + 1;
    }
    assert(samples@.take(count as int) =~= samples@);
    let gain = compute_root_gain(count as u64);
    let normalized = scale(sum as i128, gain);
    proof {
        lemma_scaled_bounds(sum as int, gain as int);
    }
    let shaped = scale(normalized, amplitude);
    proof {
        lemma_scaled_bounds(normalized as int, amplitude as int);
    }
    let sample = scale(shaped, volume);
    proof {
        lemma_scaled_bounds(shaped as int, volume as int);
        lemma_voice_level_peak(samples@, amplitude as int, volume as int);
    }
    sample as i64
}

/// The mix of a round of voices: the sum of their samples.
pub fn mix_voices(outputs: &Vec<i64>) -> (r: i128)
    ensures
        r == level_sum(outputs@),
{
    let mut sum: i128 = 0;
    let mut i: usize = 0;
    while i < outputs.len()
        invariant
            i <= outputs@.len(),
            -(i * 0x8000_0000_0000_0000) <= sum <= i * 0x8000_0000_0000_0000,
            sum == level_sum(outputs@.take(i as int)),
        decreases outputs@.len() - i,
    {
        proof {
            lemma_level_sum_step(outputs@, i as int);
        }
        sum = sum + outputs[i] as i128;
        i += 1;
    }
    assert(outputs@.take(i as int) =~= outputs@);
    sum
}

} // verus!
