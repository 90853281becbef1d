//! Waveform kinds and the sample each gives at a point of its cycle.

use crate::level::{fraction, fraction_level, UNITY};
use rand::Rng;
use vstd::arithmetic::div_mod::{lemma_mod_bound, lemma_mul_mod_noop_general};
use vstd::prelude::*;

verus! {

/// The shape of an oscillator's cycle.
#[derive(Clone, Copy, Debug, PartialEq, Eq, Structural)]
pub enum WaveForm {
    Sine,
    Saw,
    Square,
    Pulse,
    Triangle,
    WhiteNoise,
}

/// One cycle of a sine wave, sampled at equal steps of phase and given in
/// levels. The engine reads the sine from this table.
pub struct SineTable {
    pub samples: Vec<i32>,
}

/// How many thousandths of a hertz make one hertz.
pub const MILLI: u64 = 1000;

/// The point of its cycle that an oscillator of `frequency` millihertz has
/// reached after `clock` samples at `sample_rate` samples per second. The
/// result counts parts of a cycle of `sample_rate * MILLI` parts.
pub open spec fn phase_of(frequency: nat, clock: nat, sample_rate: nat) -> nat {
    (clock * frequency) % (sample_rate * (MILLI as nat))
}

/// The sample of a waveform at phase `num / den`, with `0 <= num < den`.
/// `sine` is one sampled cycle, and `noise` is the sample that white noise
/// has drawn.
pub open spec fn wave_value(kind: WaveForm, num: int, den: int, sine: Seq<i32>, noise: int) -> int {
    match kind {
        WaveForm::Sine => sine[(num * sine.len()) / den] as int,
        WaveForm::Saw => fraction(2 * num - den, den),
        WaveForm::Square => if 2 * num < den {
            UNITY as int
        } else {
            -(UNITY as int)
        },
        WaveForm::Pulse => if 4 * num < den {
            UNITY as int
        } else {
            -(UNITY as int)
        },
        WaveForm::Triangle => if 4 * num < den {
            fraction(4 * num, den)
        } else if 4 * num < 3 * den {
            fraction(2 * den - 4 * num, den)
        } else {
            fraction(4 * num - 4 * den, den)
        },
        WaveForm::WhiteNoise => noise,
    }
}

/// Draws a number from `low..high` with `rand`: `Rng::gen_range` on the
/// generator that `thread_rng` hands out. The crate documents that the
/// value lies in the range, which must not be empty; which value comes is
/// left open.
#[verifier::external_body]
fn random_in(low: i32, high: i32) -> (r: i32)
    requires
        low < high,
    ensures
        low <= r < high,
{
    rand::thread_rng().gen_range(low..high)
}

/// Computes the phase of an oscillator from the sample clock.
pub fn phase(frequency: u64, clock: u64, sample_rate: u32) -> (num: u64)
    requires
        sample_rate > 0,
    ensures
        num == phase_of(frequency as nat, clock as nat, sample_rate as nat),
        num < sample_rate * MILLI,
{
    let den: u64 = (sample_rate as u64) * MILLI;
    let a: u64 = clock % den;
    let b: u64 = frequency % den;
    proof {
        lemma_mul_mod_noop_general(clock as int, frequency as int, den as int);
        lemma_mod_bound(clock as int * frequency as int, den as int);
        assert(a * b <= den * den) by (nonlinear_arith)
            requires
                0 <= a < den,
                0 <= b < den,
        ;
        assert(den * den <= 0x1_0000_0000_0000 * 0x1_0000_0000_0000) by (nonlinear_arith)
            requires
                0 <= den <= 0x1_0000_0000_0000,
        ;
    }
    let product: u128 = (a as u128) * (b as u128);
    (product % (den as u128)) as u64
}

impl SineTable {
    /// A table holds at least one sample, and each is a level.
    pub open spec fn wf(&self) -> bool {
        &&& self.samples@.len() > 0
        &&& forall|i: int| 0 <= i < self.samples@.len() ==>
            -UNITY <= #[trigger] self.samples@[i] <= UNITY
    }

    /// Takes one sampled cycle. The table is refused when it is empty or
    /// when a sample is beyond full scale.
    pub fn new(samples: Vec<i32>) -> (r: Option<SineTable>)
        ensures
            r is Some <==> (SineTable { samples }).wf(),
            r is Some ==> r->0.samples == samples,
    {
        if samples.len() == 0 {
            return None;
        }
        let mut i: usize = 0;
        while i < samples.len()
            invariant
                i <= samples.len(),
                forall|j: int| 0 <= j < i ==> -UNITY <= #[trigger] samples@[j] <= UNITY,
            decreases samples.len() - i,
        {
            let s: i32 = samples[i];
            if s < -(UNITY as i32) || s > UNITY as i32 {
                return None;
            }
            i += 1;
        }
        Some(SineTable { samples })
    }

    /// The sample at phase `num / den`: the table is read at the last step
    /// that the phase has reached.
    pub fn lookup(&self, num: u64, den: u64) -> (r: i32)
        requires
            self.wf(),
            num < den,
        ensures
            r == wave_value(WaveForm::Sine, num as int, den as int, self.samples@, 0),
            -UNITY <= r <= UNITY,
    {
        let len: usize = self.samples.len();
        proof {
            assert(0 <= num * len < den * len
                && (num * len) / (den as int) < len) by (nonlinear_arith)
                requires
                    0 <= num < den,
                    len > 0,
            ;
            assert(den * len <= 0x1_0000_0000_0000_0000 * 0x1_0000_0000_0000_0000)
                by (nonlinear_arith)
                requires
                    0 <= den <= 0x1_0000_0000_0000_0000,
                    0 <= len <= 0x1_0000_0000_0000_0000,
            ;
        }
        let index: u128 = (num as u128) * (len as u128) / (den as u128);
        self.samples[index as usize]
    }
}

impl WaveForm {
    /// The kind that follows this one when the waveform is toggled.
    pub open spec fn successor(self) -> WaveForm {
        match self {
            WaveForm::Sine => WaveForm::Saw,
            WaveForm::Saw => WaveForm::Square,
            WaveForm::Square => WaveForm::Pulse,
            WaveForm::Pulse => WaveForm::Triangle,
            WaveForm::Triangle => WaveForm::WhiteNoise,
            WaveForm::WhiteNoise => WaveForm::Sine,
        }
    }

    /// The sample of this waveform at phase `num / den`, given the sample
    /// that white noise has drawn.
    pub fn shape(&self, num: u64, den: u64, sine: &SineTable, noise: i32) -> (r: i32)
        requires
            num < den,
            sine.wf(),
            -UNITY <= noise <= UNITY,
        ensures
            r == wave_value(*self, num as int, den as int, sine.samples@, noise as int),
            -UNITY <= r <= UNITY,
    {
        let n: i128 = num as i128;
        let d: i128 = den as i128;
        let full: i32 = UNITY as i32;
        match self {
            WaveForm::Sine => sine.lookup(num, den),
            WaveForm::Saw => fraction_level(2 * n - d, den),
            WaveForm::Square => if 2 * n < d {
                full
            } else {
                -full
            },
            WaveForm::Pulse => if 4 * n < d {
                full
            } else {
                -full
            },
            WaveForm::Triangle => if 4 * n < d {
                fraction_level(4 * n, den)
            } else if 4 * n < 3 * d {
                fraction_level(2 * d - 4 * n, den)
            } else {
                fraction_level(4 * n - 4 * d, den)
            },
            WaveForm::WhiteNoise => noise,
        }
    }

    /// The sample of an oscillator of `frequency` millihertz after `clock`
    /// samples at `sample_rate` samples per second. White noise draws a
    /// fresh sample at each call; every other kind is a function of the
    /// phase.
    pub fn generate(&self, frequency: u64, clock: u64, sample_rate: u32,
        sine: &SineTable) -> (r: i32)
        requires
            sample_rate > 0,
            sine.wf(),
        ensures
            -UNITY <= r <= UNITY,
            *self != WaveForm::WhiteNoise ==> r == wave_value(
                *self,
                phase_of(frequency as nat, clock as nat, sample_rate as nat) as int,
                sample_rate * MILLI,
                sine.samples@,
                0,
            ),
            *self == WaveForm::WhiteNoise ==> r < UNITY,
    {
        let num: u64 = phase(frequency, clock, sample_rate);
        let den: u64 = (sample_rate as u64) * MILLI;
        let noise: i32 = match self {
            WaveForm::WhiteNoise => random_in(-(UNITY as i32), UNITY as i32),
            _ => 0,
        };
        self.shape(num, den, sine, noise)
    }

    /// Moves to the next kind of the cycle Sine, Saw, Square, Pulse,
    /// Triangle, WhiteNoise, and from there back to Sine.
    pub fn toggle(&mut self)
        ensures
            *final(self) == old(self).successor(),
    {
        *self = match self {
            WaveForm::Sine => WaveForm::Saw,
            WaveForm::Saw => WaveForm::Square,
            WaveForm::Square => WaveForm::Pulse,
            WaveForm::Pulse => WaveForm::Triangle,
            WaveForm::Triangle => WaveForm::WhiteNoise,
            WaveForm::WhiteNoise => WaveForm::Sine,
        }
    }
}

/// Six toggles bring every waveform back to itself, and no fewer do.
pub proof fn lemma_toggle_cycle(w: WaveForm)
    ensures
        w.successor().successor().successor().successor().successor().successor() == w,
        w.successor() != w,
        w.successor().successor() != w,
        w.successor().successor().successor() != w,
        w.successor().successor().successor().successor() != w,
        w.successor().successor().successor().successor().successor() != w,
{
}

} // verus!
