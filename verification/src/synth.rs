//! The voice registry: the keys that sound, their envelopes and oscillator
//! banks, the settings they share, and the mix of their samples.

use crate::adsr::ADSR;
use crate::clock::Clock;
use crate::detune::{
    detuned_frequencies, detuned_frequency, lemma_detuned_range, MAX_BASE_FREQUENCY,
};
use crate::envelope::{lemma_update_keeps_wf, Envelope, EnvelopeStage};
use crate::key_mapping::{get_pitch_class, pitch_of_key, Key};
use crate::level::{compute_root_gain, root_gain, UNITY};
use crate::mixing::{
    lemma_level_sum_bound, level_sum, mix_voices, peak_level, scale_voice, voice_level,
};
use crate::oscillator::Oscillator;
use crate::pitch::{frequency_of_pitch, lemma_pitch_frequency_range, pitch_frequency};
use crate::waveform::{SineTable, WaveForm};
use vstd::prelude::*;

verus! {

/// The sounding state of one key: its envelope and its oscillators.
pub struct Voice {
    pub key: Key,
    pub envelope: Envelope,
    pub oscillators: Vec<Oscillator>,
}

/// The registry of voices and the settings that all voices share.
/// Frequencies are in millihertz; `detune` and `master_volume` are levels.
pub struct Synth {
    pub sample_rate: u32,
    pub sample_clock: u64,
    pub voices: Vec<Voice>,
    pub current_waveform: WaveForm,
    pub adsr: ADSR,
    pub detune: u32,
    pub num_oscillators: u32,
    pub master_volume: u32,
    pub sine: SineTable,
    pub clock: Clock,
}

/// A voice as a value.
pub struct VoiceView {
    pub key: Key,
    pub envelope: Envelope,
    pub oscillators: Seq<Oscillator>,
}

/// The registry as a value: what its operations are stated over.
pub struct SynthView {
    pub sample_rate: u32,
    pub sample_clock: u64,
    pub voices: Seq<VoiceView>,
    pub current_waveform: WaveForm,
    pub adsr: ADSR,
    pub detune: u32,
    pub num_oscillators: u32,
    pub master_volume: u32,
    pub sine: Seq<i32>,
    pub clock: Clock,
}

/// The base frequency of a key in millihertz, if the key plays a pitch.
pub open spec fn key_frequency(key: Key) -> Option<u64> {
    match pitch_of_key(key) {
        Some(pitch) => pitch_frequency(pitch),
        None => None,
    }
}

/// The bank of `count` oscillators of a voice, lowest frequency first.
pub open spec fn oscillator_bank(base: u64, detune: u32, count: u32, waveform: WaveForm) -> Seq<
    Oscillator,
> {
    Seq::new(
        count as nat,
        |j: int|
            Oscillator {
                frequency: detuned_frequency(base as int, detune as int, count as int, j) as u64,
                waveform,
            },
    )
}

/// The samples of a bank of oscillators, for every waveform but white
/// noise.
pub open spec fn bank_samples(
    oscillators: Seq<Oscillator>,
    clock: u64,
    sample_rate: u32,
    sine: Seq<i32>,
) -> Seq<i32> {
    Seq::new(oscillators.len(), |j: int| oscillators[j].sample_at(clock, sample_rate, sine) as i32)
}

/// Tells the voices that have not finished.
pub open spec fn is_live() -> spec_fn(VoiceView) -> bool {
    |voice: VoiceView| voice.envelope.stage != EnvelopeStage::Finished
}

impl View for Voice {
    type V = VoiceView;

    open spec fn view(&self) -> VoiceView {
        VoiceView { key: self.key, envelope: self.envelope, oscillators: self.oscillators@ }
    }
}

impl View for Synth {
    type V = SynthView;

    open spec fn view(&self) -> SynthView {
        SynthView {
            sample_rate: self.sample_rate,
            sample_clock: self.sample_clock,
            voices: Seq::new(self.voices@.len(), |i: int| self.voices@[i]@),
            current_waveform: self.current_waveform,
            adsr: self.adsr,
            detune: self.detune,
            num_oscillators: self.num_oscillators,
            master_volume: self.master_volume,
            sine: self.sine.samples@,
            clock: self.clock,
        }
    }
}

impl SynthView {
    /// Whether voice `i` is as the settings say: its envelope has the shape
    /// that all voices share, its key plays a pitch, and its oscillators are
    /// the bank of that pitch.
    pub open spec fn voice_in_tune(self, i: int) -> bool {
        let voice = self.voices[i];
        &&& voice.envelope.wf()
        &&& voice.envelope.adsr == self.adsr
        &&& key_frequency(voice.key) matches Some(base)
        &&& voice.oscillators == oscillator_bank(
            base,
            self.detune,
            self.num_oscillators,
            self.current_waveform,
        )
    }

    /// The settings are in range, every voice is in tune with them, and no
    /// key has two voices.
    pub open spec fn wf(self) -> bool {
        &&& self.sample_rate > 0
        &&& self.adsr.wf()
        &&& self.detune <= UNITY
        &&& self.master_volume <= UNITY
        &&& self.num_oscillators >= 1
        &&& self.sine.len() > 0
        &&& forall|i: int| 0 <= i < self.sine.len() ==> -UNITY <= #[trigger] self.sine[i] <= UNITY
        &&& forall|i: int| 0 <= i < self.voices.len() ==> #[trigger] self.voice_in_tune(i)
        &&& forall|i: int, j: int|
            0 <= i < j < self.voices.len() ==> #[trigger] self.voices[i].key
                != #[trigger] self.voices[j].key
    }

    /// Whether a key has a voice.
    pub open spec fn is_active(self, key: Key) -> bool {
        exists|i: int| 0 <= i < self.voices.len() && #[trigger] self.voices[i].key == key
    }

    /// The place of the voice of an active key.
    pub open spec fn position(self, key: Key) -> int {
        choose|i: int| 0 <= i < self.voices.len() && #[trigger] self.voices[i].key == key
    }

    /// The registry after a key goes down at `now`. A key that has a voice,
    /// or that plays no pitch, changes nothing. Any other key gets a voice at
    /// the end of the registry: an envelope that starts its attack and the
    /// bank of the key's pitch.
    pub open spec fn with_note(self, key: Key, now: u64) -> SynthView {
        if self.is_active(key) {
            self
        } else {
            match key_frequency(key) {
                None => self,
                Some(base) => SynthView {
                    voices: self.voices.push(
                        VoiceView {
                            key,
                            envelope: Envelope::started(self.adsr, now),
                            oscillators: oscillator_bank(
                                base,
                                self.detune,
                                self.num_oscillators,
                                self.current_waveform,
                            ),
                        },
                    ),
                    ..self
                },
            }
        }
    }

    /// The registry after a key goes up at `now`: the envelope of its voice
    /// is released, and the voice stays. A key without a voice changes
    /// nothing.
    pub open spec fn with_release(self, key: Key, now: u64) -> SynthView {
        SynthView {
            voices: Seq::new(
                self.voices.len(),
                |i: int|
                    if self.voices[i].key == key {
                        VoiceView { envelope: self.voices[i].envelope.released(now),
                            ..self.voices[i] }
                    } else {
                        self.voices[i]
                    },
            ),
            ..self
        }
    }

    /// The registry after the detune is set: every oscillator is retuned
    /// around the base frequency of its key, and keeps its waveform.
    pub open spec fn retuned(self, detune: u32) -> SynthView {
        SynthView {
            detune,
            voices: Seq::new(
                self.voices.len(),
                |i: int|
                    VoiceView {
                        oscillators: Seq::new(
                            self.voices[i].oscillators.len(),
                            |j: int|
                                Oscillator {
                                    frequency: match key_frequency(self.voices[i].key) {
                                        Some(base) => detuned_frequency(
                                            base as int,
                                            detune as int,
                                            self.num_oscillators as int,
                                            j,
                                        ) as u64,
                                        None => self.voices[i].oscillators[j].frequency,
                                    },
                                    ..self.voices[i].oscillators[j]
                                },
                        ),
                        ..self.voices[i]
                    },
            ),
            ..self
        }
    }

    /// The registry after the waveform is toggled: the next kind of the
    /// cycle, in the settings and in every oscillator.
    pub open spec fn toggled(self) -> SynthView {
        SynthView {
            current_waveform: self.current_waveform.successor(),
            voices: Seq::new(
                self.voices.len(),
                |i: int|
                    VoiceView {
                        oscillators: Seq::new(
                            self.voices[i].oscillators.len(),
                            |j: int|
                                Oscillator {
                                    waveform: self.current_waveform.successor(),
                                    ..self.voices[i].oscillators[j]
                                },
                        ),
                        ..self.voices[i]
                    },
            ),
            ..self
        }
    }

    /// The registry after a render tick at `now`: every envelope is
    /// updated.
    pub open spec fn ticked(self, now: u64) -> SynthView {
        SynthView {
            voices: Seq::new(
                self.voices.len(),
                |i: int|
                    VoiceView { envelope: self.voices[i].envelope.updated(now), ..self.voices[i] },
            ),
            ..self
        }
    }

    /// The sample of voice `i` at the present sample clock, for every
    /// waveform but white noise: the sample that the samples of its
    /// oscillators give under its amplitude and the master volume.
    pub open spec fn voice_output(self, i: int) -> int {
        let voice = self.voices[i];
        voice_level(
            bank_samples(voice.oscillators, self.sample_clock, self.sample_rate, self.sine),
            voice.envelope.amplitude as int,
            self.master_volume as int,
        )
    }

    /// The loudest sample that voice `i` can give: that of oscillators
    /// which all stand at full scale.
    pub open spec fn voice_peak(self, i: int) -> int {
        let voice = self.voices[i];
        peak_level(
            voice.oscillators.len(),
            voice.envelope.amplitude as int,
            self.master_volume as int,
        )
    }

    /// Whether `drawn` can be the samples of the oscillators of voice `i` at
    /// the present sample clock: one level for each oscillator, and for
    /// every oscillator but one of white noise the sample of its waveform.
    pub open spec fn is_draw(self, i: int, drawn: Seq<i32>) -> bool {
        let bank = self.voices[i].oscillators;
        &&& drawn.len() == bank.len()
        &&& forall|j: int| 0 <= j < drawn.len() ==> -UNITY <= #[trigger] drawn[j] <= UNITY
        &&& forall|j: int|
            0 <= j < drawn.len() && bank[j].waveform != WaveForm::WhiteNoise ==> #[trigger] drawn[j]
                == bank[j].sample_at(self.sample_clock, self.sample_rate, self.sine)
    }

    /// Whether `sample` can be the sample of voice `i` at the present sample
    /// clock: the sample that some draw of its oscillators gives under its
    /// amplitude and the master volume.
    pub open spec fn is_voice_sample(self, i: int, sample: int) -> bool {
        exists|drawn: Seq<i32>| #[trigger]
            self.is_draw(i, drawn) && sample == voice_level(
                drawn,
                self.voices[i].envelope.amplitude as int,
                self.master_volume as int,
            )
    }

    /// Whether `outputs` can be the samples of the voices at the present
    /// sample clock, one for each voice: silence for a finished voice, and
    /// for every other a sample of that voice.
    pub open spec fn is_round(self, outputs: Seq<i64>) -> bool {
        &&& outputs.len() == self.voices.len()
        &&& forall|i: int|
            0 <= i < outputs.len() ==> if self.voices[i].envelope.stage == EnvelopeStage::Finished {
                #[trigger] outputs[i] == 0
            } else {
                self.is_voice_sample(i, outputs[i] as int)
            }
    }

    /// Whether `mix` can be the mix of the voices at the present sample
    /// clock: the sum of some round of their samples.
    pub open spec fn is_mix(self, mix: int) -> bool {
        exists|outputs: Seq<i64>| #[trigger] self.is_round(outputs) && mix == level_sum(outputs)
    }

    /// The sample of the voice of a key; silence for a key without a voice.
    pub open spec fn key_output(self, key: Key) -> int {
        if self.is_active(key) {
            self.voice_output(self.position(key))
        } else {
            0
        }
    }

    /// The samples of the voices, one for each voice, for every waveform but
    /// white noise: silence for a finished voice.
    pub open spec fn exact_round(self) -> Seq<i64> {
        Seq::new(
            self.voices.len(),
            |i: int|
                if self.voices[i].envelope.stage == EnvelopeStage::Finished {
                    0i64
                } else {
                    self.voice_output(i) as i64
                },
        )
    }

    /// The sum of the samples of all voices that have not finished, for
    /// every waveform but white noise.
    pub open spec fn mix(self) -> int {
        level_sum(self.exact_round())
    }

    /// The gain that keeps the mix from growing with the number of voices:
    /// full scale for one voice or none, else one over the square root of
    /// their number.
    pub open spec fn polyphonic_gain(self) -> int {
        root_gain(self.voices.len()) as int
    }

    /// The registry `samples` samples later: the sample clock has moved on,
    /// wrapping around at the end of its range.
    pub open spec fn advanced(self, samples: nat) -> SynthView {
        SynthView {
            sample_clock: ((self.sample_clock + samples) % 0x1_0000_0000_0000_0000) as u64,
            ..self
        }
    }

    /// The registry after the finished voices are dropped. The others keep
    /// their order.
    pub open spec fn swept(self) -> SynthView {
        SynthView { voices: self.voices.filter(is_live()), ..self }
    }
}

impl Synth {
    /// The registry is well formed when its value is.
    pub open spec fn wf(&self) -> bool {
        self@.wf()
    }

    /// An empty registry with four oscillators to the voice, no detune, the
    /// sine waveform and full volume.
    pub fn new(sample_rate: u32, adsr: ADSR, sine: SineTable) -> (r: Synth)
        requires
            sample_rate > 0,
            adsr.wf(),
            sine.wf(),
        ensures
            r.wf(),
            r@.sample_rate == sample_rate,
            r@.sample_clock == 0,
            r@.voices == Seq::<VoiceView>::empty(),
            r@.current_waveform == WaveForm::Sine,
            r@.adsr == adsr,
            r@.detune == 0,
            r@.num_oscillators == 4,
            r@.master_volume == UNITY,
            r@.sine == sine.samples@,
    {
        let r = Synth {
            sample_rate,
            sample_clock: 0,
            voices: Vec::new(),
            current_waveform: WaveForm::Sine,
            adsr,
            detune: 0,
            num_oscillators: 4,
            master_volume: UNITY,
            sine,
            clock: Clock::start(),
        };
        assert(r@.voices =~= Seq::<VoiceView>::empty());
        r
    }

    /// The base frequency of a key in millihertz; none for a key that plays
    /// no pitch.
    pub fn frequency(&self, key: Key) -> (r: Option<u64>)
        ensures
            r == key_frequency(key),
            r matches Some(f) ==> 16_000 <= f <= 15_804_265,
    {
        match get_pitch_class(&key) {
            Some(pitch) => frequency_of_pitch(&pitch),
            None => None,
        }
    }

    /// The place of the voice of a key, if it has one.
    pub fn find_voice(&self, key: Key) -> (r: Option<usize>)
        ensures
            r is Some <==> self@.is_active(key),
            r matches Some(i) ==> i < self.voices@.len() && self.voices@[i as int].key == key,
            self.wf() && r is Some ==> r->0 == self@.position(key),
    {
        let mut i: usize = 0;
        while i < self.voices.len()
            invariant
                i <= self.voices@.len(),
                forall|j: int| 0 <= j < i ==> self.voices@[j].key != key,
            decreases self.voices@.len() - i,
        {
            if self.voices[i].key == key {
                assert(self@.voices[i as int].key == key);
                return Some(i);
            }
            i += 1;
        }
        assert forall|j: int| 0 <= j < self@.voices.len() implies self@.voices[j].key != key by {
            assert(self@.voices[j].key == self.voices@[j].key);
        }
        None
    }

    /// Sets the master volume, held to the range of levels.
    pub fn set_master_volume(&mut self, volume: u32)
        requires
            old(self).wf(),
        ensures
            final(self).wf(),
            final(self)@ == (SynthView {
                master_volume: if volume <= UNITY {
                    volume
                } else {
                    UNITY
                },
                ..old(self)@
            }),
    {
        self.master_volume = if volume <= UNITY {
            volume
        } else {
            UNITY
        };
        proof {
            assert(self@.voices =~= old(self)@.voices);
            assert forall|i: int| 0 <= i < self@.voices.len() implies
                #[trigger] self@.voice_in_tune(
                i,
            ) by {
                assert(old(self)@.voice_in_tune(i));
            }
        }
    }

    /// Moves the sample clock on by one sample. The count wraps around at
    /// the end of its range.
    pub fn increment_sample_clock(&mut self)
        ensures
            final(self)@ == (SynthView {
                sample_clock: if old(self).sample_clock == u64::MAX {
                    0
                } else {
                    (old(self).sample_clock + 1) as u64
                },
                ..old(self)@
            }),
            old(self).wf() ==> final(self).wf(),
    {
        self.sample_clock = self.sample_clock.wrapping_add(1);
        proof {
            assert(self@.voices =~= old(self)@.voices);
            if old(self).wf() {
                assert forall|i: int| 0 <= i < self@.voices.len() implies
                    #[trigger] self@.voice_in_tune(
                    i,
                ) by {
                    assert(old(self)@.voice_in_tune(i));
                }
            }
        }
    }

    /// The count of samples rendered so far.
    pub fn get_sample_clock(&self) -> (r: u64)
        ensures
            r == self@.sample_clock,
    {
        self.sample_clock
    }

    /// The frequencies of the oscillators of a voice with the given base
    /// frequency, lowest first, under the present detune.
    pub fn get_detuned_frequencies(&self, base_freq: u64) -> (r: Vec<u64>)
        requires
            self.detune <= UNITY,
            base_freq <= MAX_BASE_FREQUENCY,
        ensures
            r@.len() == self.num_oscillators,
            forall|i: int|
                0 <= i < self.num_oscillators ==> #[trigger] r@[i] == detuned_frequency(
                    base_freq as int,
                    self.detune as int,
                    self.num_oscillators as int,
                    i,
                ),
    {
        detuned_frequencies(base_freq, self.detune, self.num_oscillators)
    }

    /// A key goes down at `now`. See [`SynthView::with_note`].
    pub fn add_note_at(&mut self, key: Key, now: u64)
        requires
            old(self).wf(),
        ensures
            final(self).wf(),
            final(self)@ == old(self)@.with_note(key, now),
    {
        if self.find_voice(key).is_some() {
            return ;
        }
        match self.frequency(key) {
            None => {},
            Some(base) => {
                let mut envelope = Envelope::new(self.adsr, now);
                envelope.trigger_attack(now);
                let frequencies = self.get_detuned_frequencies(base);
                let oscillators = build_bank(&frequencies, self.current_waveform);
                proof {
                    assert forall|j: int| 0 <= j < self.num_oscillators implies 0
                        <= #[trigger] detuned_frequency(
                        base as int,
                        self.detune as int,
                        self.num_oscillators as int,
                        j,
                    ) <= u64::MAX by {
                        lemma_detuned_range(
                            base as int,
                            self.detune as int,
                            self.num_oscillators as int,
                            j,
                        );
                    }
                    assert(oscillators@ =~= oscillator_bank(
                        base,
                        self.detune,
                        self.num_oscillators,
                        self.current_waveform,
                    ));
                }
                let voice = Voice { key, envelope, oscillators };
                self.voices.push(voice);
                proof {
                    let before = old(self)@;
                    let after = self@;
                    assert(!before.is_active(key));
                    assert(after.voices[before.voices.len() as int]
                        == self.voices@[before.voices.len() as int]@);
                    assert(after.voices =~= before.with_note(key, now).voices);
                    assert(after == before.with_note(key, now));
                    assert forall|i: int| 0 <= i < after.voices.len() implies
                        #[trigger] after.voice_in_tune(
                        i,
                    ) by {
                        if i < before.voices.len() {
                            assert(before.voice_in_tune(i));
                        }
                    }
                }
            },
        }
    }

    /// A key goes up at `now`. See [`SynthView::with_release`].
    pub fn remove_note_at(&mut self, key: Key, now: u64)
        requires
            old(self).wf(),
        ensures
            final(self).wf(),
            final(self)@ == old(self)@.with_release(key, now),
    {
        match self.find_voice(key) {
            None => {
                proof {
                    assert(self@.voices =~= self@.with_release(key, now).voices);
                }
            },
            Some(i) => {
                assert(self@.voice_in_tune(i as int));
                self.voices[i].envelope.trigger_release(now);
                proof {
                    let before = old(self)@;
                    let after = self@;
                    assert(after.voices =~= before.with_release(key, now).voices);
                    assert forall|k: int| 0 <= k < after.voices.len() implies
                        #[trigger] after.voice_in_tune(
                        k,
                    ) by {
                        assert(before.voice_in_tune(k));
                    }
                }
            },
        }
    }

    /// Sets the detune and retunes every oscillator in place. See
    /// [`SynthView::retuned`].
    pub fn set_detune(&mut self, detune: u32)
        requires
            old(self).wf(),
            detune <= UNITY,
        ensures
            final(self).wf(),
            final(self)@ == old(self)@.retuned(detune),
    {
        let ghost before = self@;
        self.detune = detune;
        let mut i: usize = 0;
        while i < self.voices.len()
            invariant
                before.wf(),
                detune <= UNITY,
                i <= self.voices@.len(),
                self.voices@.len() == before.voices.len(),
                self@ == (SynthView { voices: self@.voices, ..before.retuned(detune) }),
                forall|k: int| 0 <= k < i ==>
                    #[trigger] self@.voices[k] == before.retuned(detune).voices[k],
                forall|k: int| i <= k < self.voices@.len() ==>
                    #[trigger] self@.voices[k] == before.voices[k],
            decreases self.voices@.len() - i,
        {
            let ghost entry = self@;
            assert(entry.voices[i as int] == before.voices[i as int]);
            assert(before.voice_in_tune(i as int));
            match self.frequency(self.voices[i].key) {
                None => {},
                Some(base) => {
                    let frequencies = self.get_detuned_frequencies(base);
                    retune_bank(&mut self.voices[i].oscillators, &frequencies);
                    proof {
                        assert forall|j: int| 0 <= j < self.num_oscillators implies 0
                            <= #[trigger] detuned_frequency(
                            base as int,
                            detune as int,
                            self.num_oscillators as int,
                            j,
                        ) <= u64::MAX by {
                            lemma_detuned_range(
                                base as int,
                                detune as int,
                                self.num_oscillators as int,
                                j,
                            );
                        }
                        assert(self@.voices[i as int].oscillators
                            =~= before.retuned(detune).voices[i as int].oscillators);
                    }
                },
            }
            proof {
                assert forall|k: int| 0 <= k < i + 1 implies #[trigger] self@.voices[k]
                    == before.retuned(detune).voices[k] by {
                    if k < i {
                        assert(entry.voices[k] == before.retuned(detune).voices[k]);
                    }
                }
                assert forall|k: int| i + 1 <= k < self.voices@.len() implies
                    #[trigger] self@.voices[k]
                    == before.voices[k] by {
                    assert(entry.voices[k] == before.voices[k]);
                }
            }
            i += 1;
        }
        proof {
            let after = before.retuned(detune);
            assert(self@.voices =~= after.voices);
            assert forall|k: int| 0 <= k < after.voices.len() implies
                #[trigger] after.voice_in_tune(
                k,
            ) by {
                assert(before.voice_in_tune(k));
                let base = key_frequency(before.voices[k].key)->0;
                lemma_pitch_frequency_range(pitch_of_key(before.voices[k].key)->0);
                assert forall|j: int| 0 <= j < before.num_oscillators implies 0
                    <= #[trigger] detuned_frequency(
                    base as int,
                    detune as int,
                    before.num_oscillators as int,
                    j,
                ) <= u64::MAX by {
                    lemma_detuned_range(base as int, detune as int, before.num_oscillators as int,
                        j);
                }
                assert(after.voices[k].oscillators =~= oscillator_bank(
                    base,
                    detune,
                    before.num_oscillators,
                    before.current_waveform,
                ));
            }
        }
    }

    /// Moves to the next waveform and gives it to every oscillator. See
    /// [`SynthView::toggled`].
    pub fn toggle_waveform(&mut self)
        requires
            old(self).wf(),
        ensures
            final(self).wf(),
            final(self)@ == old(self)@.toggled(),
    {
        let ghost before = self@;
        self.current_waveform.toggle();
        let waveform = self.current_waveform;
        let mut i: usize = 0;
        while i < self.voices.len()
            invariant
                before.wf(),
                waveform == before.current_waveform.successor(),
                i <= self.voices@.len(),
                self.voices@.len() == before.voices.len(),
                self@ == (SynthView { voices: self@.voices, ..before.toggled() }),
                forall|k: int| 0 <= k < i ==>
                    #[trigger] self@.voices[k] == before.toggled().voices[k],
                forall|k: int| i <= k < self.voices@.len() ==>
                    #[trigger] self@.voices[k] == before.voices[k],
            decreases self.voices@.len() - i,
        {
            let ghost entry = self@;
            assert(entry.voices[i as int] == before.voices[i as int]);
            set_bank_waveform(&mut self.voices[i].oscillators, waveform);
            proof {
                assert(self@.voices[i as int].oscillators
                    =~= before.toggled().voices[i as int].oscillators);
                assert forall|k: int| 0 <= k < i + 1 implies #[trigger] self@.voices[k]
                    == before.toggled().voices[k] by {
                    if k < i {
                        assert(entry.voices[k] == before.toggled().voices[k]);
                    }
                }
                assert forall|k: int| i + 1 <= k < self.voices@.len() implies
                    #[trigger] self@.voices[k]
                    == before.voices[k] by {
                    assert(entry.voices[k] == before.voices[k]);
                }
            }
            i += 1;
        }
        proof {
            let after = before.toggled();
            assert(self@.voices =~= after.voices);
            assert forall|k: int| 0 <= k < after.voices.len() implies
                #[trigger] after.voice_in_tune(
                k,
            ) by {
                assert(before.voice_in_tune(k));
                let base = key_frequency(before.voices[k].key)->0;
                assert(after.voices[k].oscillators =~= oscillator_bank(
                    base,
                    before.detune,
                    before.num_oscillators,
                    waveform,
                ));
            }
        }
    }

    /// Updates every envelope at `now`. See [`SynthView::ticked`].
    pub fn update_envelope_at(&mut self, now: u64)
        requires
            old(self).wf(),
        ensures
            final(self).wf(),
            final(self)@ == old(self)@.ticked(now),
    {
        let ghost before = self@;
        let mut i: usize = 0;
        while i < self.voices.len()
            invariant
                before.wf(),
                i <= self.voices@.len(),
                self.voices@.len() == before.voices.len(),
                self@ == (SynthView { voices: self@.voices, ..before }),
                forall|k: int| 0 <= k < i ==>
                    #[trigger] self@.voices[k] == before.ticked(now).voices[k],
                forall|k: int| i <= k < self.voices@.len() ==>
                    #[trigger] self@.voices[k] == before.voices[k],
            decreases self.voices@.len() - i,
        {
            let ghost entry = self@;
            assert(entry.voices[i as int] == before.voices[i as int]);
            assert(before.voice_in_tune(i as int));
            self.voices[i].envelope.update(now);
            proof {
                assert forall|k: int| 0 <= k < i + 1 implies #[trigger] self@.voices[k]
                    == before.ticked(now).voices[k] by {
                    if k < i {
                        assert(entry.voices[k] == before.ticked(now).voices[k]);
                    }
                }
                assert forall|k: int| i + 1 <= k < self.voices@.len() implies
                    #[trigger] self@.voices[k]
                    == before.voices[k] by {
                    assert(entry.voices[k] == before.voices[k]);
                }
            }
            i += 1;
        }
        proof {
            let after = before.ticked(now);
            assert(self@.voices =~= after.voices);
            assert forall|k: int| 0 <= k < after.voices.len() implies
                #[trigger] after.voice_in_tune(
                k,
            ) by {
                assert(before.voice_in_tune(k));
                lemma_update_keeps_wf(before.voices[k].envelope, now);
            }
        }
    }

    /// The gain that keeps the mix from growing with the number of voices.
    pub fn get_polyphonic_scaling_factor(&self) -> (r: u32)
        ensures
            r == self@.polyphonic_gain(),
            r <= UNITY,
    {
        compute_root_gain(self.voices.len() as u64)
    }

    /// Draws the samples of the oscillators of voice `i` at the present
    /// sample clock, lowest oscillator first. White noise draws a fresh
    /// sample for each oscillator.
    pub fn draw_voice(&self, i: usize) -> (r: Vec<i32>)
        requires
            self.wf(),
            i < self.voices@.len(),
        ensures
            self@.is_draw(i as int, r@),
            self@.current_waveform != WaveForm::WhiteNoise ==> r@ == bank_samples(
                self@.voices[i as int].oscillators,
                self.sample_clock,
                self.sample_rate,
                self.sine.samples@,
            ),
            r@.len() == self.num_oscillators,
    {
        assert(self@.voice_in_tune(i as int));
        assert(self@.voices[i as int] == self.voices@[i as int]@);
        let voice = &self.voices[i];
        let count: usize = voice.oscillators.len();
        let ghost bank = voice.oscillators@;
        let mut drawn: Vec<i32> = Vec::with_capacity(count);
        let mut j: usize = 0;
        while j < count
            invariant
                self.sample_rate > 0,
                self.sine.wf(),
                voice.oscillators@ == bank,
                count == bank.len(),
                j <= count,
                drawn@.len() == j,
                forall|k: int| 0 <= k < j ==> -UNITY <= #[trigger] drawn@[k] <= UNITY,
                forall|k: int|
                    0 <= k < j && bank[k].waveform != WaveForm::WhiteNoise ==> #[trigger] drawn@[k]
                        == bank[k].sample_at(
                        self.sample_clock,
                        self.sample_rate,
                        self.sine.samples@,
                    ),
            decreases count - j,
        {
            let sample = voice.oscillators[j].next_sample(
                self.sample_clock,
                self.sample_rate,
                &self.sine,
            );
            drawn.push(sample);
            j = j + 1;
        }
        proof {
            if self.current_waveform != WaveForm::WhiteNoise {
                assert(drawn@ =~= bank_samples(
                    bank,
                    self.sample_clock,
                    self.sample_rate,
                    self.sine.samples@,
                ));
            }
        }
        drawn
    }

    /// The sample of voice `i` at the present sample clock: the samples of
    /// its oscillators are drawn, and [`scale_voice`] makes the sample of
    /// them.
    pub fn voice_sample(&self, i: usize) -> (r: i64)
        requires
            self.wf(),
            i < self.voices@.len(),
        ensures
            self@.is_voice_sample(i as int, r as int),
            self@.current_waveform != WaveForm::WhiteNoise ==> r == self@.voice_output(i as int),
            -self@.voice_peak(i as int) <= r <= self@.voice_peak(i as int),
            self@.voice_peak(i as int) <= self.num_oscillators * UNITY,
    {
        assert(self@.voice_in_tune(i as int));
        assert(self@.voices[i as int] == self.voices@[i as int]@);
        let drawn = self.draw_voice(i);
        scale_voice(&drawn, self.voices[i].envelope.amplitude, self.master_volume)
    }

    /// The sample of the voice of a key at the present sample clock;
    /// silence for a key without a voice. With white noise every call draws
    /// fresh samples; the result then only keeps to its range.
    pub fn generate_waveform(&self, key: Key) -> (r: i64)
        requires
            self.wf(),
        ensures
            self@.current_waveform != WaveForm::WhiteNoise ==> r == self@.key_output(key),
            !self@.is_active(key) ==> r == 0,
            self@.is_active(key) ==> self@.is_voice_sample(self@.position(key), r as int),
            self@.is_active(key) ==> -self@.voice_peak(self@.position(key)) <= r
                <= self@.voice_peak(self@.position(key)),
            -(self.num_oscillators * UNITY) <= r <= self.num_oscillators * UNITY,
    {
        match self.find_voice(key) {
            None => 0,
            Some(i) => self.voice_sample(i),
        }
    }

    /// A key goes down now. The time is read from the registry's clock;
    /// the rest is [`Synth::add_note_at`].
    pub fn add_note(&mut self, key: Key)
        requires
            old(self).wf(),
        ensures
            final(self).wf(),
            exists|now: u64| final(self)@ == old(self)@.with_note(key, now),
    {
        let now = self.clock.now();
        self.add_note_at(key, now);
    }

    /// A key goes up now. The time is read from the registry's clock; the
    /// rest is [`Synth::remove_note_at`].
    pub fn remove_note(&mut self, key: Key)
        requires
            old(self).wf(),
        ensures
            final(self).wf(),
            exists|now: u64| final(self)@ == old(self)@.with_release(key, now),
    {
        let now = self.clock.now();
        self.remove_note_at(key, now);
    }

    /// Updates every envelope at the present time. The time is read from
    /// the registry's clock; the rest is [`Synth::update_envelope_at`].
    pub fn update_envelope(&mut self)
        requires
            old(self).wf(),
        ensures
            final(self).wf(),
            exists|now: u64| final(self)@ == old(self)@.ticked(now),
    {
        let now = self.clock.now();
        self.update_envelope_at(now);
    }

    /// The samples of the voices at the present sample clock, one for each
    /// voice: silence for a finished voice, which is not drawn.
    pub fn draw_round(&self) -> (r: Vec<i64>)
        requires
            self.wf(),
        ensures
            self@.is_round(r@),
            self@.current_waveform != WaveForm::WhiteNoise ==> r@ == self@.exact_round(),
            forall|i: int|
                0 <= i < r@.len() ==> -(self.num_oscillators * UNITY) <= #[trigger] r@[i]
                    <= self.num_oscillators * UNITY,
    {
        let mut outputs: Vec<i64> = Vec::with_capacity(self.voices.len());
        let mut i: usize = 0;
        while i < self.voices.len()
            invariant
                self.wf(),
                i <= self.voices@.len(),
                outputs@.len() == i,
                forall|k: int|
                    0 <= k < i ==> -(self.num_oscillators * UNITY) <= #[trigger] outputs@[k]
                        <= self.num_oscillators * UNITY,
                forall|k: int|
                    0 <= k < i ==> if self@.voices[k].envelope.stage == EnvelopeStage::Finished {
                        #[trigger] outputs@[k] == 0
                    } else {
                        self@.is_voice_sample(k, outputs@[k] as int)
                    },
                self@.current_waveform != WaveForm::WhiteNoise ==> forall|k: int|
                    0 <= k < i ==> #[trigger] outputs@[k] == self@.exact_round()[k],
            decreases self.voices@.len() - i,
        {
            assert(self@.voices[i as int] == self.voices@[i as int]@);
            let sample: i64 = if self.voices[i].envelope.is_finished() {
                0
            } else {
                self.voice_sample(i)
            };
            outputs.push(sample);
            i += 1;
        }
        proof {
            if self@.current_waveform != WaveForm::WhiteNoise {
                assert(outputs@ =~= self@.exact_round());
            }
        }
        outputs
    }

    /// The mix of the voices at the present sample clock: the samples of
    /// the voices that have not finished are drawn, and [`mix_voices`] adds
    /// them.
    pub fn mix_sample(&self) -> (r: i128)
        requires
            self.wf(),
        ensures
            self@.is_mix(r as int),
            self@.current_waveform != WaveForm::WhiteNoise ==> r == self@.mix(),
            -(self.voices@.len() * (self.num_oscillators * UNITY)) <= r <= self.voices@.len() * (
            self.num_oscillators * UNITY),
    {
        let outputs = self.draw_round();
        proof {
            lemma_level_sum_bound(outputs@, self.num_oscillators * UNITY);
        }
        mix_voices(&outputs)
    }

    /// Drops the voices whose envelope has finished. See
    /// [`SynthView::swept`].
    pub fn sweep(&mut self)
        requires
            old(self).wf(),
        ensures
            final(self).wf(),
            final(self)@ == old(self)@.swept(),
    {
        let ghost before = self@;
        let ghost mut done: int = 0;
        let mut i: usize = 0;
        proof {
            reveal(Seq::filter);
            assert(before.voices.take(0).filter(is_live()) =~= Seq::<VoiceView>::empty());
            assert(before.voices.skip(0) =~= before.voices);
            assert(self@.voices
                =~= before.voices.take(0).filter(is_live()) + before.voices.skip(0));
        }
        while i < self.voices.len()
            invariant
                before.wf(),
                self.wf(),
                0 <= done <= before.voices.len(),
                i <= self.voices@.len(),
                self@ == (SynthView { voices: self@.voices, ..before }),
                i == before.voices.take(done).filter(is_live()).len(),
                self@.voices
                    == before.voices.take(done).filter(is_live()) + before.voices.skip(done),
            decreases self.voices@.len() - i,
        {
            let ghost entry = self@;
            proof {
                reveal(Seq::filter);
                assert(entry.voices[i as int] == before.voices.skip(done)[0]);
                assert(entry.voices[i as int] == self.voices@[i as int]@);
                assert(before.voices.take(done + 1).drop_last() =~= before.voices.take(done));
                assert(before.voices.take(done + 1).last() == before.voices[done]);
            }
            if self.voices[i].envelope.is_finished() {
                let _ = self.voices.remove(i);
                proof {
                    assert(self@.voices =~= entry.voices.remove(i as int));
                    assert(self@.voices =~= before.voices.take(done + 1).filter(is_live())
                        + before.voices.skip(done + 1));
                    assert forall|k: int| 0 <= k < self@.voices.len() implies
                        #[trigger] self@.voice_in_tune(
                        k,
                    ) by {
                        if k < i {
                            assert(entry.voice_in_tune(k));
                        } else {
                            assert(entry.voice_in_tune(k + 1));
                        }
                    }
                    assert forall|a: int, b: int| 0 <= a < b < self@.voices.len() implies
                        #[trigger] self@.voices[a].key
                        != #[trigger] self@.voices[b].key by {
                        let a0 = if a < i { a } else { a + 1 };
                        let b0 = if b < i { b } else { b + 1 };
                        assert(entry.voices[a0].key != entry.voices[b0].key);
                    }
                    done = done + 1;
                }
            } else {
                proof {
                    assert(self@.voices =~= before.voices.take(done + 1).filter(is_live())
                        + before.voices.skip(done + 1));
                    done = done + 1;
                }
                i += 1;
            }
        }
        proof {
            assert(before.voices.skip(done).len() == 0);
            assert(done == before.voices.len());
            assert(before.voices.take(done) =~= before.voices);
            assert(self@.voices =~= before.voices.filter(is_live()));
        }
    }

    /// The master volume, for display.
    pub fn master_volume(&self) -> (r: u32)
        ensures
            r == self@.master_volume,
    {
        self.master_volume
    }

    /// The present waveform, for display.
    pub fn current_waveform(&self) -> (r: WaveForm)
        ensures
            r == self@.current_waveform,
    {
        self.current_waveform
    }

    /// The number of voices in the registry, for display.
    pub fn active_voice_count(&self) -> (r: usize)
        ensures
            r == self@.voices.len(),
    {
        self.voices.len()
    }
}

/// Gives the oscillators of a bank the frequencies of a list, as far as
/// the list goes.
fn retune_bank(oscillators: &mut Vec<Oscillator>, frequencies: &Vec<u64>)
    ensures
        final(oscillators)@.len() == old(oscillators)@.len(),
        forall|j: int|
            0 <= j < old(oscillators)@.len() ==> #[trigger] final(oscillators)@[j] == (Oscillator {
                frequency: if j < frequencies@.len() {
                    frequencies@[j]
                } else {
                    old(oscillators)@[j].frequency
                },
                waveform: old(oscillators)@[j].waveform,
            }),
{
    let ghost before = oscillators@;
    let mut j: usize = 0;
    while j < oscillators.len() && j < frequencies.len()
        invariant
            j <= oscillators@.len(),
            j <= frequencies@.len(),
            oscillators@.len() == before.len(),
            forall|k: int|
                0 <= k < j ==> #[trigger] oscillators@[k] == (Oscillator {
                    frequency: frequencies@[k],
                    waveform: before[k].waveform,
                }),
            forall|k: int| j <= k < before.len() ==> #[trigger] oscillators@[k] == before[k],
        decreases oscillators@.len() - j,
    {
        oscillators[j].set_frequency(frequencies[j]);
        j += 1;
    }
    assert forall|k: int| 0 <= k < before.len() implies #[trigger] oscillators@[k] == (Oscillator {
        frequency: if k < frequencies@.len() {
            frequencies@[k]
        } else {
            before[k].frequency
        },
        waveform: before[k].waveform,
    }) by {
        if k >= j {
            assert(oscillators@[k] == before[k]);
        }
    }
}

/// Gives every oscillator of a bank a waveform.
fn set_bank_waveform(oscillators: &mut Vec<Oscillator>, waveform: WaveForm)
    ensures
        final(oscillators)@.len() == old(oscillators)@.len(),
        forall|j: int|
            0 <= j < old(oscillators)@.len() ==> #[trigger] final(oscillators)@[j] == (Oscillator {
                frequency: old(oscillators)@[j].frequency,
                waveform,
            }),
{
    let ghost before = oscillators@;
    let mut j: usize = 0;
    while j < oscillators.len()
        invariant
            j <= oscillators@.len(),
            oscillators@.len() == before.len(),
            forall|k: int|
                0 <= k < j ==> #[trigger] oscillators@[k] == (Oscillator {
                    frequency: before[k].frequency,
                    waveform,
                }),
            forall|k: int| j <= k < before.len() ==> #[trigger] oscillators@[k] == before[k],
        decreases oscillators@.len() - j,
    {
        oscillators[j].set_waveform(waveform);
        j += 1;
    }
}

/// Builds the oscillators of a voice from their frequencies.
fn build_bank(frequencies: &Vec<u64>, waveform: WaveForm) -> (r: Vec<Oscillator>)
    ensures
        r@.len() == frequencies@.len(),
        forall|j: int|
            0 <= j < r@.len() ==> #[trigger] r@[j] == (Oscillator {
                frequency: frequencies@[j],
                waveform,
            }),
{
    let mut bank: Vec<Oscillator> = Vec::new();
    let mut j: usize = 0;
    while j < frequencies.len()
        invariant
            j <= frequencies@.len(),
            bank@.len() == j,
            forall|k: int|
                0 <= k < j ==> #[trigger] bank@[k] == (Oscillator {
                    frequency: frequencies@[k],
                    waveform,
                }),
        decreases frequencies@.len() - j,
    {
        bank.push(Oscillator::new(frequencies[j], waveform));
        j += 1;
    }
    bank
}

/// The sample of a voice depends on the voice and on the clock, the sample
/// rate, the sine and the master volume that it sounds under, and on
/// nothing else: not on the other voices nor on how many there are.
pub proof fn lemma_voice_sounds_alone(a: SynthView, i: int, b: SynthView, j: int)
    requires
        a.voices[i] == b.voices[j],
        a.sample_clock == b.sample_clock,
        a.sample_rate == b.sample_rate,
        a.sine == b.sine,
        a.master_volume == b.master_volume,
    ensures
        a.voice_output(i) == b.voice_output(j),
        a.voice_peak(i) == b.voice_peak(j),
        forall|drawn: Seq<i32>| a.is_draw(i, drawn) == b.is_draw(j, drawn),
        forall|sample: int| a.is_voice_sample(i, sample) == b.is_voice_sample(j, sample),
{
    assert forall|drawn: Seq<i32>| a.is_draw(i, drawn) == b.is_draw(j, drawn) by {}
    assert forall|sample: int| a.is_voice_sample(i, sample) == b.is_voice_sample(j, sample) by {
        if a.is_voice_sample(i, sample) {
            let drawn = choose|drawn: Seq<i32>| #[trigger]
                a.is_draw(i, drawn) && sample == voice_level(
                    drawn,
                    a.voices[i].envelope.amplitude as int,
                    a.master_volume as int,
                );
            assert(b.is_draw(j, drawn));
        }
        if b.is_voice_sample(j, sample) {
            let drawn = choose|drawn: Seq<i32>| #[trigger]
                b.is_draw(j, drawn) && sample == voice_level(
                    drawn,
                    b.voices[j].envelope.amplitude as int,
                    b.master_volume as int,
                );
            assert(a.is_draw(i, drawn));
        }
    }
}

/// A key that has a voice is not struck again: while the voice is in the
/// registry, the key going down changes nothing, so the envelope keeps its
/// stage, its amplitude and the time its stage began.
pub proof fn lemma_add_active_note(synth: SynthView, key: Key, now: u64)
    requires
        synth.is_active(key),
    ensures
        synth.with_note(key, now) == synth,
{
}

/// A key going down twice is a key going down once: the second time,
/// whenever it comes, changes nothing.
pub proof fn lemma_add_note_twice(synth: SynthView, key: Key, first: u64, second: u64)
    ensures
        synth.with_note(key, first).with_note(key, second) == synth.with_note(key, first),
{
    let once = synth.with_note(key, first);
    if !synth.is_active(key) && key_frequency(key) is Some {
        assert(once.voices[synth.voices.len() as int].key == key);
        assert(once.is_active(key));
    }
}

/// A key with a voice is active after it went down, and a key that plays a
/// pitch is active after it went down whatever the registry held.
pub proof fn lemma_added_note_is_active(synth: SynthView, key: Key, now: u64)
    requires
        key_frequency(key) is Some,
    ensures
        synth.with_note(key, now).is_active(key),
{
    let once = synth.with_note(key, now);
    if !synth.is_active(key) {
        assert(once.voices[synth.voices.len() as int].key == key);
    }
}

/// A key without a voice going up changes nothing.
pub proof fn lemma_remove_inactive_note(synth: SynthView, key: Key, now: u64)
    requires
        !synth.is_active(key),
    ensures
        synth.with_release(key, now) == synth,
{
    assert(synth.with_release(key, now).voices =~= synth.voices);
}

/// A key going up takes no voice out of the registry: the voice stays, with
/// its oscillators, until its envelope has finished and a block has been
/// rendered.
pub proof fn lemma_release_keeps_voices(synth: SynthView, key: Key, now: u64)
    ensures
        synth.with_release(key, now).voices.len() == synth.voices.len(),
        forall|i: int|
            0 <= i < synth.voices.len() ==> (#[trigger] synth.with_release(key, now).voices[i]).key
                == synth.voices[i].key && synth.with_release(key, now).voices[i].oscillators
                == synth.voices[i].oscillators,
        forall|other: Key| synth.with_release(key, now).is_active(other) == synth.is_active(other),
{
    let after = synth.with_release(key, now);
    assert forall|other: Key| after.is_active(other) == synth.is_active(other) by {
        if synth.is_active(other) {
            let i = synth.position(other);
            assert(after.voices[i].key == other);
        }
        if after.is_active(other) {
            let i = after.position(other);
            assert(synth.voices[i].key == other);
        }
    }
}

/// After the sweep at the end of a block no voice of the registry has
/// finished, and every voice that is left was there before.
pub proof fn lemma_swept_voices(synth: SynthView)
    ensures
        synth.swept().voices.len() <= synth.voices.len(),
        forall|i: int|
            0 <= i < synth.swept().voices.len() ==>
                (#[trigger] synth.swept().voices[i]).envelope.stage
                != EnvelopeStage::Finished && synth.voices.contains(synth.swept().voices[i]),
{
    let kept = synth.voices.filter(is_live());
    synth.voices.lemma_filter_len(is_live());
    assert forall|i: int| 0 <= i < kept.len() implies (#[trigger] kept[i]).envelope.stage
        != EnvelopeStage::Finished && synth.voices.contains(kept[i]) by {
        synth.voices.lemma_filter_pred(is_live(), i);
        assert(kept.contains(kept[i]));
        synth.voices.lemma_filter_contains_rev(is_live(), kept[i]);
    }
}

/// A finished voice is gone after the sweep: a key whose envelope has
/// finished has no voice in a well-formed registry once the block is
/// rendered.
pub proof fn lemma_finished_voice_is_swept(synth: SynthView, key: Key)
    requires
        synth.wf(),
        synth.is_active(key),
        synth.voices[synth.position(key)].envelope.stage == EnvelopeStage::Finished,
    ensures
        !synth.swept().is_active(key),
{
    let after = synth.swept();
    lemma_swept_voices(synth);
    if after.is_active(key) {
        let i = after.position(key);
        let voice = after.voices[i];
        assert(synth.voices.contains(voice));
        let j = choose|j: int| 0 <= j < synth.voices.len() && synth.voices[j] == voice;
        let p = synth.position(key);
        assert(synth.voices[j].key == key);
        if j < p {
            assert(synth.voices[j].key != synth.voices[p].key);
        } else if p < j {
            assert(synth.voices[p].key != synth.voices[j].key);
        }
    }
}

} // verus!
