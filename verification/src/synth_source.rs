//! The render source: a block of samples that is rendered in one pass over
//! the registry and then handed out sample by sample.
//!
//! [`SynthSource::next`] is the pull: it touches the registry once per
//! block, when the buffer is drained, and serves from the buffer alone
//! between two blocks. A caller that shares the registry asks
//! [`SynthSource::is_drained`] first, and holds the registry only for the
//! pull that renders; the others it makes with
//! [`SynthSource::next_buffered`].

use crate::level::{scale, scaled, UNITY};
use crate::synth::{Synth, SynthView};
use crate::waveform::WaveForm;
use vstd::prelude::*;

verus! {

/// The number of samples in a block.
pub const BLOCK_SIZE: usize = 256;

/// The level beyond which the mix is clipped: 0.95 of full scale.
pub const CLIP_LEVEL: i32 = 950_000;

/// A block of rendered samples and the place of the next one to hand out.
pub struct SynthSource {
    pub sample_rate: u32,
    pub buffer: Vec<i32>,
    pub buffer_pos: usize,
}

/// A sample held to the clip level: beyond it the sample is the clip level
/// with its own sign, within it the sample is unchanged.
pub open spec fn soft_clipped(x: int) -> int {
    if x > CLIP_LEVEL {
        CLIP_LEVEL as int
    } else if x < -CLIP_LEVEL {
        -(CLIP_LEVEL as int)
    } else {
        x
    }
}

/// The sample that a registry puts out at its present sample clock, for
/// every waveform but white noise: the mix of its voices, brought down by
/// the polyphonic gain and clipped.
pub open spec fn output_sample(synth: SynthView) -> int {
    soft_clipped(scaled(synth.mix(), synth.polyphonic_gain()))
}

/// Whether `sample` can be the sample that a registry puts out at its
/// present sample clock: some mix of its voices, brought down by the
/// polyphonic gain and clipped.
pub open spec fn is_output(synth: SynthView, sample: int) -> bool {
    exists|mix: int| #[trigger]
        synth.is_mix(mix) && sample == soft_clipped(scaled(mix, synth.polyphonic_gain()))
}

/// The block that a registry renders from its present sample clock on, for
/// every waveform but white noise.
pub open spec fn rendered_block(synth: SynthView) -> Seq<int> {
    Seq::new(BLOCK_SIZE as nat, |i: int| output_sample(synth.advanced(i as nat)))
}

/// Whether `after` and `buffer` are what one render pass at `now` makes of
/// the registry `before`: every envelope is updated, the block is rendered
/// while the sample clock moves on by its length, and the finished voices
/// are dropped. Every sample is an output of the registry at its place of
/// the block and keeps to the clip level; with every waveform but white
/// noise the block is the rendered block of the registry.
pub open spec fn is_render_pass(
    before: SynthView,
    now: u64,
    after: SynthView,
    buffer: Seq<i32>,
) -> bool {
    &&& after == before.ticked(now).advanced(BLOCK_SIZE as nat).swept()
    &&& buffer.len() == BLOCK_SIZE
    &&& forall|i: int| 0 <= i < BLOCK_SIZE ==> -CLIP_LEVEL <= #[trigger] buffer[i] <= CLIP_LEVEL
    &&& forall|i: int|
        0 <= i < BLOCK_SIZE ==> is_output(
            before.ticked(now).advanced(i as nat),
            #[trigger] buffer[i] as int,
        )
    &&& before.current_waveform != WaveForm::WhiteNoise ==> buffer.map_values(|s: i32| s as int)
        == rendered_block(before.ticked(now))
}

/// Moving on by one sample after `n` is moving on by `n + 1`.
pub proof fn lemma_advanced_step(synth: SynthView, n: nat)
    ensures
        synth.advanced(n).advanced(1) == synth.advanced(n + 1),
        synth.advanced(0) == synth,
        synth.advanced(n).sample_clock == u64::MAX ==> synth.advanced(n + 1).sample_clock == 0,
        synth.advanced(n).sample_clock < u64::MAX ==> synth.advanced(n + 1).sample_clock
            == synth.advanced(n).sample_clock + 1,
{
    let m = 0x1_0000_0000_0000_0000int;
    let c = synth.sample_clock as int;
    assert(((c + n) % m + 1) % m == (c + n + 1) % m) by (nonlinear_arith)
        requires
            m > 0,
            c + n >= 0,
    ;
}

impl SynthSource {
    /// The place of the next sample lies within the buffer or at its end.
    pub open spec fn wf(&self) -> bool {
        self.buffer_pos <= self.buffer@.len()
    }

    /// Whether every sample of the buffer has been handed out.
    pub open spec fn drained(&self) -> bool {
        self.buffer_pos >= self.buffer@.len()
    }

    /// Whether `after` and `r` are what handing out the next sample of the
    /// buffer makes of this source: the sample at the present place, and the
    /// place moved on by one.
    pub open spec fn serves(&self, after: &SynthSource, r: Option<i32>) -> bool {
        &&& after.buffer@ == self.buffer@
        &&& r == Some(self.buffer@[self.buffer_pos as int])
        &&& after.buffer_pos == self.buffer_pos + 1
    }

    /// A source without samples: the first block is still to be rendered.
    pub fn new(sample_rate: u32) -> (r: SynthSource)
        ensures
            r.sample_rate == sample_rate,
            r.buffer@ == Seq::<i32>::empty(),
            r.buffer_pos == 0,
            r.wf(),
            r.drained(),
    {
        SynthSource { sample_rate, buffer: Vec::with_capacity(BLOCK_SIZE), buffer_pos: 0 }
    }

    /// Holds a sample to the clip level. The limit is hard: a sample within
    /// the level passes unchanged.
    pub fn soft_clip(x: i128) -> (r: i32)
        ensures
            r == soft_clipped(x as int),
            -CLIP_LEVEL <= r <= CLIP_LEVEL,
    {
        if x > CLIP_LEVEL as i128 {
            CLIP_LEVEL
        } else if x < -(CLIP_LEVEL as i128) {
            -CLIP_LEVEL
        } else {
            x as i32
        }
    }

    /// Whether the buffer is drained, so that a block has to be rendered
    /// before the next sample.
    pub fn is_drained(&self) -> (r: bool)
        ensures
            r == self.drained(),
    {
        self.buffer_pos >= self.buffer.len()
    }

    /// Renders one block in one pass over the registry, with `now` as the
    /// time of the render tick: every envelope is updated, the block is
    /// rendered from the voices that have not finished while the sample
    /// clock moves on, and the finished voices are dropped. The source then
    /// stands at the first sample of the block.
    pub fn fill_buffer_at(&mut self, synth: &mut Synth, now: u64)
        requires
            old(synth).wf(),
        ensures
            final(synth).wf(),
            is_render_pass(old(synth)@, now, final(synth)@, final(self).buffer@),
            final(self).sample_rate == old(self).sample_rate,
            final(self).buffer_pos == 0,
            final(self).wf(),
    {
        self.buffer.clear();
        synth.update_envelope_at(now);
        let gain = synth.get_polyphonic_scaling_factor();
        let ghost start = synth@;
        let ghost exact = start.current_waveform != WaveForm::WhiteNoise;
        let mut n: usize = 0;
        proof {
            lemma_advanced_step(start, 0);
        }
        while n < BLOCK_SIZE
            invariant
                n <= BLOCK_SIZE,
                synth.wf(),
                synth@ == start.advanced(n as nat),
                gain == start.polyphonic_gain(),
                gain <= UNITY,
                exact == (start.current_waveform != WaveForm::WhiteNoise),
                self.sample_rate == old(self).sample_rate,
                self.buffer@.len() == n,
                forall|i: int| 0 <= i < n ==>
                    -CLIP_LEVEL <= #[trigger] self.buffer@[i] <= CLIP_LEVEL,
                forall|i: int|
                    0 <= i < n ==> is_output(
                        start.advanced(i as nat),
                        #[trigger] self.buffer@[i] as int,
                    ),
                exact ==> forall|i: int|
                    0 <= i < n ==> #[trigger] self.buffer@[i]
                        == output_sample(start.advanced(i as nat)),
            decreases BLOCK_SIZE - n,
        {
            let voices: usize = synth.voices.len();
            let mix = synth.mix_sample();
            proof {
                let count = voices as int;
                let per_voice = synth.num_oscillators * UNITY;
                assert(count * per_voice <= 0xFFFF_FFFF_FFFF_FFFF * (0xFFFF_FFFF * 1_000_000))
                    by (nonlinear_arith)
                    requires
                        0 <= count <= 0xFFFF_FFFF_FFFF_FFFF,
                        0 <= per_voice <= 0xFFFF_FFFF * 1_000_000,
                ;
                lemma_advanced_step(start, n as nat);
            }
            let sample = Self::soft_clip(scale(mix, gain));
            self.buffer.push(sample);
            synth.increment_sample_clock();
            n += 1;
        }
        synth.sweep();
        self.buffer_pos = 0;
        proof {
            if exact {
                assert(self.buffer@.map_values(|s: i32| s as int) =~= rendered_block(start));
            }
        }
    }

    /// Renders one block with the time of the registry's clock as the
    /// render tick; the rest is [`SynthSource::fill_buffer_at`].
    pub fn fill_buffer(&mut self, synth: &mut Synth)
        requires
            old(synth).wf(),
        ensures
            final(synth).wf(),
            exists|now: u64| is_render_pass(old(synth)@, now, final(synth)@, final(self).buffer@),
            final(self).sample_rate == old(self).sample_rate,
            final(self).buffer_pos == 0,
            final(self).wf(),
    {
        let now = synth.clock.now();
        self.fill_buffer_at(synth, now);
    }

    /// Hands out the next sample of the block, or nothing when the buffer
    /// is drained. The registry is not touched: this serves the samples
    /// between two blocks to a caller that shares the registry.
    pub fn next_buffered(&mut self) -> (r: Option<i32>)
        requires
            old(self).wf(),
        ensures
            final(self).wf(),
            final(self).sample_rate == old(self).sample_rate,
            final(self).buffer@ == old(self).buffer@,
            old(self).drained() ==> r is None && final(self).buffer_pos == old(self).buffer_pos,
            !old(self).drained() ==> r == Some(old(self).buffer@[old(self).buffer_pos as int])
                && final(self).buffer_pos == old(self).buffer_pos + 1,
    {
        if self.buffer_pos >= self.buffer.len() {
            return None;
        }
        let sample = self.buffer[self.buffer_pos];
        self.buffer_pos += 1;
        Some(sample)
    }

    /// Pulls the next sample, with `now` as the time of the render tick if
    /// one falls due. While the buffer holds samples the next one is handed
    /// out and the registry is left alone. On a drained buffer one block is
    /// rendered in one pass over the registry and its first sample is handed
    /// out. The stream never ends.
    pub fn next_at(&mut self, synth: &mut Synth, now: u64) -> (r: Option<i32>)
        requires
            old(self).wf(),
            old(synth).wf(),
        ensures
            r is Some,
            final(self).wf(),
            final(synth).wf(),
            final(self).sample_rate == old(self).sample_rate,
            !old(self).drained() ==> *final(synth) == *old(synth) && old(self).serves(
                final(self),
                r,
            ),
            old(self).drained() ==> is_render_pass(
                old(synth)@,
                now,
                final(synth)@,
                final(self).buffer@,
            ) && r == Some(final(self).buffer@[0]) && final(self).buffer_pos == 1,
    {
        if self.is_drained() {
            self.fill_buffer_at(synth, now);
        }
        self.next_buffered()
    }

    /// Pulls the next sample. The registry is touched, and its clock read,
    /// only on a drained buffer; the rest is [`SynthSource::next_at`].
    pub fn next(&mut self, synth: &mut Synth) -> (r: Option<i32>)
        requires
            old(self).wf(),
            old(synth).wf(),
        ensures
            r is Some,
            final(self).wf(),
            final(synth).wf(),
            final(self).sample_rate == old(self).sample_rate,
            !old(self).drained() ==> *final(synth) == *old(synth) && old(self).serves(
                final(self),
                r,
            ),
            old(self).drained() ==> (exists|now: u64|
                is_render_pass(old(synth)@, now, final(synth)@, final(self).buffer@)) && r
                == Some(final(self).buffer@[0]) && final(self).buffer_pos == 1,
    {
        if self.is_drained() {
            self.fill_buffer(synth);
        }
        self.next_buffered()
    }

    /// The number of samples that come at one sample rate and channel
    /// count: a block.
    pub fn current_frame_len(&self) -> (r: Option<usize>)
        ensures
            r == Some(BLOCK_SIZE),
    {
        Some(BLOCK_SIZE)
    }

    /// The source is mono.
    pub fn channels(&self) -> (r: u16)
        ensures
            r == 1,
    {
        1
    }

    /// The sample rate that the source was made with.
    pub fn sample_rate(&self) -> (r: u32)
        ensures
            r == self.sample_rate,
    {
        self.sample_rate
    }

    /// The length of the stream in milliseconds: none, the stream goes on
    /// for as long as it is pulled.
    pub fn total_duration(&self) -> (r: Option<u64>)
        ensures
            r is None,
    {
        None
    }
}

} // verus!
