//! The amplitude envelope of one voice: a state machine over the stages
//! attack, decay, sustain, release and finished, driven by the time in
//! milliseconds that the caller reads from a clock.

use crate::adsr::{lemma_amplitude_bounds, ADSR};
use crate::level::UNITY;
use vstd::prelude::*;

verus! {

/// The stage that an envelope is in.
#[derive(PartialEq, Eq, Debug, Copy, Clone, Structural)]
pub enum EnvelopeStage {
    Attack,
    Decay,
    Sustain,
    Release,
    Finished,
}

/// The envelope of one voice. `start_time` is the time at which the current
/// stage began, and `release_start_amplitude` the amplitude from which the
/// release falls.
#[derive(Debug, Clone, Copy)]
pub struct Envelope {
    pub adsr: ADSR,
    pub stage: EnvelopeStage,
    pub start_time: u64,
    pub amplitude: u32,
    pub release_start_amplitude: u32,
}

/// The time that has passed from `start` to `now`; none if the clock has
/// gone back.
pub open spec fn elapsed_since(start: u64, now: u64) -> int {
    if now >= start {
        now - start
    } else {
        0
    }
}

impl EnvelopeStage {
    /// The stage that follows when this one has run its length.
    pub open spec fn following(self) -> EnvelopeStage {
        match self {
            EnvelopeStage::Attack => EnvelopeStage::Decay,
            EnvelopeStage::Decay => EnvelopeStage::Sustain,
            EnvelopeStage::Sustain => EnvelopeStage::Sustain,
            EnvelopeStage::Release => EnvelopeStage::Finished,
            EnvelopeStage::Finished => EnvelopeStage::Finished,
        }
    }
}

impl Envelope {
    /// Both amplitudes are levels, and a finished envelope is silent.
    pub open spec fn wf(&self) -> bool {
        &&& self.adsr.wf()
        &&& self.amplitude <= UNITY
        &&& self.release_start_amplitude <= UNITY
        &&& self.stage == EnvelopeStage::Finished ==> self.amplitude == 0
    }

    /// A silent envelope that enters its attack at `now`.
    pub open spec fn started(adsr: ADSR, now: u64) -> Envelope {
        Envelope {
            adsr,
            stage: EnvelopeStage::Attack,
            start_time: now,
            amplitude: 0,
            release_start_amplitude: 0,
        }
    }

    /// Whether the current stage has run its length at `now`.
    pub open spec fn stage_over(self, now: u64) -> bool {
        match self.adsr.stage_length(self.stage) {
            Some(length) => elapsed_since(self.start_time, now) >= length,
            None => false,
        }
    }

    /// The envelope after a render tick at `now`. The amplitude is that of
    /// the stage the envelope was in; a stage that has run its length hands
    /// over to the one that follows, and the attack hands over its start
    /// time with it.
    pub open spec fn updated(self, now: u64) -> Envelope {
        Envelope {
            stage: if self.stage_over(now) {
                self.stage.following()
            } else {
                self.stage
            },
            start_time: if self.stage == EnvelopeStage::Attack && self.stage_over(now) {
                now
            } else {
                self.start_time
            },
            amplitude: self.adsr.amplitude_at(
                self.stage,
                elapsed_since(self.start_time, now),
                self.release_start_amplitude as int,
            ) as u32,
            ..self
        }
    }

    /// The envelope after its attack is triggered at `now`.
    pub open spec fn attacked(self, now: u64) -> Envelope {
        Envelope { stage: EnvelopeStage::Attack, start_time: now, amplitude: 0, ..self }
    }

    /// The envelope after its release is triggered at `now`: unchanged if
    /// it is in release or finished, else in release from its present
    /// amplitude.
    pub open spec fn released(self, now: u64) -> Envelope {
        if self.stage == EnvelopeStage::Release || self.stage == EnvelopeStage::Finished {
            self
        } else {
            Envelope {
                stage: EnvelopeStage::Release,
                start_time: now,
                release_start_amplitude: self.amplitude,
                ..self
            }
        }
    }

    /// A new envelope, silent and at the start of its attack.
    pub fn new(adsr: ADSR, now: u64) -> (r: Envelope)
        requires
            adsr.wf(),
        ensures
            r == Envelope::started(adsr, now),
            r.wf(),
    {
        Envelope {
            adsr,
            stage: EnvelopeStage::Attack,
            start_time: now,
            amplitude: 0,
            release_start_amplitude: 0,
        }
    }

    /// Recomputes the amplitude at a render tick and moves to the next
    /// stage when the current one has run its length.
    pub fn update(&mut self, now: u64)
        requires
            old(self).wf(),
        ensures
            *final(self) == old(self).updated(now),
            final(self).wf(),
    {
        let elapsed: u64 = if now >= self.start_time {
            now - self.start_time
        } else {
            0
        };
        proof {
            lemma_amplitude_bounds(
                self.adsr,
                self.stage,
                elapsed as int,
                self.release_start_amplitude as int,
            );
        }
        match self.stage {
            EnvelopeStage::Attack => {
                let amp = self.adsr.calculate_amplitude(self.stage, elapsed, 0);
                if elapsed >= self.adsr.attack as u64 {
                    self.stage = EnvelopeStage::Decay;
                    self.start_time = now;
                }
                self.amplitude = amp;
            },
            EnvelopeStage::Decay => {
                let amp = self.adsr.calculate_amplitude(self.stage, elapsed, 0);
                if elapsed >= self.adsr.decay as u64 {
                    self.stage = EnvelopeStage::Sustain;
                }
                self.amplitude = amp;
            },
            EnvelopeStage::Sustain => {
                self.amplitude = self.adsr.calculate_amplitude(self.stage, elapsed, 0);
            },
            EnvelopeStage::Release => {
                let amp = self.adsr.calculate_amplitude(
                    self.stage,
                    elapsed,
                    self.release_start_amplitude,
                );
                if elapsed >= self.adsr.release as u64 {
                    self.stage = EnvelopeStage::Finished;
                }
                self.amplitude = amp;
            },
            EnvelopeStage::Finished => {
                self.amplitude = 0;
            },
        }
    }

    /// Whether the envelope has run out.
    pub fn is_finished(&self) -> (r: bool)
        ensures
            r == (self.stage == EnvelopeStage::Finished),
    {
        self.stage == EnvelopeStage::Finished
    }

    /// Starts the attack anew from silence, whatever the stage.
    pub fn trigger_attack(&mut self, now: u64)
        requires
            old(self).wf(),
        ensures
            *final(self) == old(self).attacked(now),
            final(self).wf(),
    {
        self.stage = EnvelopeStage::Attack;
        self.start_time = now;
        self.amplitude = 0;
    }

    /// Starts the release from the present amplitude. An envelope that is
    /// in release or finished is left as it is.
    pub fn trigger_release(&mut self, now: u64)
        requires
            old(self).wf(),
        ensures
            *final(self) == old(self).released(now),
            final(self).wf(),
    {
        if self.stage != EnvelopeStage::Release && self.stage != EnvelopeStage::Finished {
            self.stage = EnvelopeStage::Release;
            self.start_time = now;
            self.release_start_amplitude = self.amplitude;
        }
    }
}

/// A render tick keeps an envelope well formed.
pub proof fn lemma_update_keeps_wf(envelope: Envelope, now: u64)
    requires
        envelope.wf(),
    ensures
        envelope.updated(now).wf(),
{
    lemma_amplitude_bounds(
        envelope.adsr,
        envelope.stage,
        elapsed_since(envelope.start_time, now),
        envelope.release_start_amplitude as int,
    );
}

/// Triggering the release twice is the same as triggering it once: the
/// second trigger, at whatever time, changes neither the amplitude from
/// which the release falls nor the time at which it began.
pub proof fn lemma_release_idempotent(envelope: Envelope, first: u64, second: u64)
    ensures
        envelope.released(first).released(second) == envelope.released(first),
{
}

/// A render tick moves an envelope by at most one stage: to the stage that
/// follows if the current one has run its length, and not at all if it has
/// not. Sustain and finished never end by themselves.
pub proof fn lemma_update_advances_once(envelope: Envelope, now: u64)
    ensures
        envelope.stage_over(now) ==> envelope.updated(now).stage == envelope.stage.following(),
        !envelope.stage_over(now) ==> envelope.updated(now).stage == envelope.stage,
        envelope.stage == EnvelopeStage::Sustain ==> envelope.updated(now).stage
            == EnvelopeStage::Sustain,
        envelope.stage == EnvelopeStage::Finished ==> envelope.updated(now).stage
            == EnvelopeStage::Finished,
        envelope.stage == EnvelopeStage::Attack ==> (envelope.stage_over(now) <==> elapsed_since(
            envelope.start_time,
            now,
        ) >= envelope.adsr.attack),
        envelope.stage == EnvelopeStage::Decay ==> (envelope.stage_over(now) <==> elapsed_since(
            envelope.start_time,
            now,
        ) >= envelope.adsr.decay),
        envelope.stage == EnvelopeStage::Release ==> (envelope.stage_over(now) <==> elapsed_since(
            envelope.start_time,
            now,
        ) >= envelope.adsr.release),
{
}

/// A stage that has run its length leaves the envelope at the value the
/// stage ends on: full scale after attack, the sustain level after decay,
/// silence after release. This holds of a stage of no length too.
pub proof fn lemma_update_ends_stage(envelope: Envelope, now: u64)
    requires
        envelope.wf(),
        envelope.stage_over(now),
    ensures
        envelope.stage == EnvelopeStage::Attack ==> envelope.updated(now).amplitude == UNITY,
        envelope.stage == EnvelopeStage::Decay ==> envelope.updated(now).amplitude
            == envelope.adsr.sustain,
        envelope.stage == EnvelopeStage::Release ==> envelope.updated(now).amplitude == 0,
{
}

/// A finished envelope stays finished and silent under ticks and under a
/// release trigger.
pub proof fn lemma_finished_is_terminal(envelope: Envelope, now: u64)
    requires
        envelope.wf(),
        envelope.stage == EnvelopeStage::Finished,
    ensures
        envelope.updated(now) == envelope,
        envelope.released(now) == envelope,
{
}

} // verus!
