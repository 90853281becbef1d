//! One oscillator: a waveform at a frequency.

use crate::level::UNITY;
use crate::waveform::{phase_of, wave_value, SineTable, WaveForm, MILLI};
use vstd::prelude::*;

verus! {

/// An oscillator sounds `waveform` at `frequency` millihertz.
#[derive(Debug, Clone, Copy)]
pub struct Oscillator {
    pub frequency: u64,
    pub waveform: WaveForm,
}

impl Oscillator {
    /// The sample after `clock` samples at `sample_rate` samples per second,
    /// for every waveform but white noise.
    pub open spec fn sample_at(self, clock: u64, sample_rate: u32, sine: Seq<i32>) -> int {
        wave_value(
            self.waveform,
            phase_of(self.frequency as nat, clock as nat, sample_rate as nat) as int,
            sample_rate * MILLI,
            sine,
            0,
        )
    }

    /// An oscillator of a waveform at a frequency.
    pub fn new(frequency: u64, waveform: WaveForm) -> (r: Oscillator)
        ensures
            r == (Oscillator { frequency, waveform }),
    {
        Oscillator { frequency, waveform }
    }

    /// Retunes the oscillator.
    pub fn set_frequency(&mut self, frequency: u64)
        ensures
            *final(self) == (Oscillator { frequency, waveform: old(self).waveform }),
    {
        self.frequency = frequency;
    }

    /// Gives the oscillator another waveform.
    pub fn set_waveform(&mut self, waveform: WaveForm)
        ensures
            *final(self) == (Oscillator { frequency: old(self).frequency, waveform }),
    {
        self.waveform = waveform;
    }

    /// The sample of the oscillator after `clock` samples at `sample_rate`
    /// samples per second. White noise draws a fresh sample at each call.
    pub fn next_sample(&self, clock: u64, sample_rate: u32, sine: &SineTable) -> (r: i32)
        requires
            sample_rate > 0,
            sine.wf(),
        ensures
            -UNITY <= r <= UNITY,
            self.waveform != WaveForm::WhiteNoise ==> r == self.sample_at(
                clock,
                sample_rate,
                sine.samples@,
            ),
    {
        self.waveform.generate(self.frequency, clock, sample_rate, sine)
    }
}

} // verus!
