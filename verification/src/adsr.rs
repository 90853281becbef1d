//! The shape of the amplitude envelope: attack, decay, sustain, release.

use crate::envelope::EnvelopeStage;
use crate::level::UNITY;
use vstd::prelude::*;

verus! {

/// Attack, decay and release last `attack`, `decay` and `release`
/// milliseconds; `sustain` is the level held between decay and release.
#[derive(Debug, Clone, Copy)]
pub struct ADSR {
    pub attack: u32,
    pub decay: u32,
    pub sustain: u32,
    pub release: u32,
}

impl ADSR {
    /// The sustain level is at most full scale.
    pub open spec fn wf(&self) -> bool {
        self.sustain <= UNITY
    }

    /// The amplitude that a stage has reached `elapsed` milliseconds after
    /// it began. Attack climbs from silence to full scale, decay falls from
    /// full scale to the sustain level, and release falls from
    /// `start_amplitude` to silence, each in a straight line. A stage that
    /// has run its length, a stage of no length among them, stands at its
    /// last value.
    pub open spec fn amplitude_at(&self, stage: EnvelopeStage, elapsed: int,
        start_amplitude: int) -> int {
        match stage {
            EnvelopeStage::Attack => if elapsed >= self.attack {
                UNITY as int
            } else {
                elapsed * UNITY / (self.attack as int)
            },
            EnvelopeStage::Decay => if elapsed >= self.decay {
                self.sustain as int
            } else {
                UNITY - elapsed * (UNITY - self.sustain) / (self.decay as int)
            },
            EnvelopeStage::Sustain => self.sustain as int,
            EnvelopeStage::Release => if elapsed >= self.release {
                0
            } else {
                start_amplitude * (self.release - elapsed) / (self.release as int)
            },
            EnvelopeStage::Finished => 0,
        }
    }

    /// The length of a stage that ends by itself, in milliseconds.
    pub open spec fn stage_length(&self, stage: EnvelopeStage) -> Option<int> {
        match stage {
            EnvelopeStage::Attack => Some(self.attack as int),
            EnvelopeStage::Decay => Some(self.decay as int),
            EnvelopeStage::Release => Some(self.release as int),
            _ => None,
        }
    }

    /// An envelope shape from durations in milliseconds and a sustain
    /// level.
    pub fn new(attack: u32, decay: u32, sustain: u32, release: u32) -> (r: ADSR)
        ensures
            r == (ADSR { attack, decay, sustain, release }),
    {
        ADSR { attack, decay, sustain, release }
    }

    /// Computes the amplitude of a stage from the time since it began.
    pub fn calculate_amplitude(&self, stage: EnvelopeStage, elapsed: u64,
        start_amplitude: u32) -> (r: u32)
        requires
            self.wf(),
            start_amplitude <= UNITY,
        ensures
            r == self.amplitude_at(stage, elapsed as int, start_amplitude as int),
            r <= UNITY,
    {
        proof {
            lemma_amplitude_bounds(*self, stage, elapsed as int, start_amplitude as int);
        }
        match stage {
            EnvelopeStage::Attack => {
                if elapsed >= self.attack as u64 {
                    UNITY
                } else {
                    (elapsed * (UNITY as u64) / (self.attack as u64)) as u32
                }
            },
            EnvelopeStage::Decay => {
                if elapsed >= self.decay as u64 {
                    self.sustain
                } else {
                    let drop: u64 = (UNITY - self.sustain) as u64;
                    assert(elapsed * drop <= 0xFFFF_FFFF * 1_000_000) by (nonlinear_arith)
                        requires
                            elapsed <= 0xFFFF_FFFF,
                            drop <= 1_000_000,
                    ;
                    UNITY - (elapsed * drop / (self.decay as u64)) as u32
                }
            },
            EnvelopeStage::Sustain => self.sustain,
            EnvelopeStage::Release => {
                if elapsed >= self.release as u64 {
                    0
                } else {
                    let left: u64 = self.release as u64 - elapsed;
                    assert(start_amplitude * left <= 1_000_000 * 0xFFFF_FFFF) by (nonlinear_arith)
                        requires
                            left <= 0xFFFF_FFFF,
                            start_amplitude <= 1_000_000,
                    ;
                    ((start_amplitude as u64) * left / (self.release as u64)) as u32
                }
            },
            EnvelopeStage::Finished => 0,
        }
    }
}

/// The amplitude of every stage is a level. Decay stays at or above the
/// sustain level, and release at or below the amplitude it began with.
pub proof fn lemma_amplitude_bounds(adsr: ADSR, stage: EnvelopeStage, elapsed: int,
    start_amplitude: int)
    requires
        adsr.wf(),
        0 <= elapsed,
        0 <= start_amplitude <= UNITY,
    ensures
        0 <= adsr.amplitude_at(stage, elapsed, start_amplitude) <= UNITY,
        stage == EnvelopeStage::Decay ==> adsr.amplitude_at(stage, elapsed, start_amplitude)
            >= adsr.sustain,
        stage == EnvelopeStage::Release ==> adsr.amplitude_at(stage, elapsed, start_amplitude)
            <= start_amplitude,
        stage == EnvelopeStage::Decay && elapsed < adsr.decay ==> adsr.amplitude_at(
            stage,
            elapsed,
            start_amplitude,
        ) == UNITY - elapsed * (UNITY - adsr.sustain) / (adsr.decay as int),
{
    match stage {
        EnvelopeStage::Attack => {
            if elapsed < adsr.attack {
                let a = adsr.attack as int;
                assert(0 <= elapsed * 1_000_000 / a <= 1_000_000) by (nonlinear_arith)
                    requires
                        0 <= elapsed < a,
                ;
            }
        },
        EnvelopeStage::Decay => {
            if elapsed < adsr.decay {
                let d = adsr.decay as int;
                let drop = UNITY - adsr.sustain;
                assert(0 <= elapsed * drop / d <= drop) by (nonlinear_arith)
                    requires
                        0 <= elapsed < d,
                        0 <= drop,
                ;
            }
        },
        EnvelopeStage::Release => {
            if elapsed < adsr.release {
                let r = adsr.release as int;
                let left = r - elapsed;
                assert(0 <= start_amplitude * left / r <= start_amplitude) by (nonlinear_arith)
                    requires
                        0 < left <= r,
                        0 <= start_amplitude,
                ;
            }
        },
        _ => {},
    }
}

/// During attack the amplitude never falls as time passes, and it rises
/// between two instants that lie at least one step of level apart: a step
/// is the `UNITY`-th part of the attack. An attack of at most `UNITY`
/// milliseconds rises from each millisecond to the next.
pub proof fn lemma_attack_rises(adsr: ADSR, earlier: int, later: int)
    requires
        0 <= earlier < later < adsr.attack,
    ensures
        adsr.amplitude_at(EnvelopeStage::Attack, earlier, 0) <= adsr.amplitude_at(
            EnvelopeStage::Attack,
            later,
            0,
        ),
        (later - earlier) * UNITY >= adsr.attack ==> adsr.amplitude_at(
            EnvelopeStage::Attack,
            earlier,
            0,
        ) < adsr.amplitude_at(EnvelopeStage::Attack, later, 0),
        adsr.attack <= UNITY ==> adsr.amplitude_at(EnvelopeStage::Attack, earlier, 0)
            < adsr.amplitude_at(EnvelopeStage::Attack, later, 0),
{
    let a = adsr.attack as int;
    let x = earlier * 1_000_000;
    let y = later * 1_000_000;
    lemma_quotient_steps(x, y, a);
}

/// During decay the amplitude never rises as time passes, and it falls
/// between two instants that lie at least one step of level apart: a step
/// is the part of the decay that one millionth of the fall takes. A decay
/// of at most as many milliseconds as it falls in millionths falls from
/// each millisecond to the next.
pub proof fn lemma_decay_falls(adsr: ADSR, earlier: int, later: int)
    requires
        adsr.wf(),
        0 <= earlier < later < adsr.decay,
    ensures
        adsr.amplitude_at(EnvelopeStage::Decay, earlier, 0) >= adsr.amplitude_at(
            EnvelopeStage::Decay,
            later,
            0,
        ),
        (later - earlier) * (UNITY - adsr.sustain) >= adsr.decay ==> adsr.amplitude_at(
            EnvelopeStage::Decay,
            earlier,
            0,
        ) > adsr.amplitude_at(EnvelopeStage::Decay, later, 0),
        adsr.decay <= UNITY - adsr.sustain ==> adsr.amplitude_at(EnvelopeStage::Decay, earlier, 0)
            > adsr.amplitude_at(EnvelopeStage::Decay, later, 0),
{
    let d = adsr.decay as int;
    let drop = UNITY - adsr.sustain;
    let x = earlier * drop;
    let y = later * drop;
    assert(0 <= x <= y && y - x == (later - earlier) * drop) by (nonlinear_arith)
        requires
            0 <= earlier < later,
            0 <= drop,
            x == earlier * drop,
            y == later * drop,
    ;
    assert(drop >= d ==> (later - earlier) * drop >= d) by (nonlinear_arith)
        requires
            later - earlier >= 1,
            d >= 0,
    ;
    lemma_quotient_steps(x, y, d);
    lemma_amplitude_bounds(adsr, EnvelopeStage::Decay, earlier, 0);
    lemma_amplitude_bounds(adsr, EnvelopeStage::Decay, later, 0);
}

/// During release the amplitude never rises as time passes.
pub proof fn lemma_release_falls(adsr: ADSR, earlier: int, later: int, start_amplitude: int)
    requires
        0 <= earlier <= later,
        0 <= start_amplitude,
    ensures
        adsr.amplitude_at(EnvelopeStage::Release, earlier, start_amplitude) >= adsr.amplitude_at(
            EnvelopeStage::Release,
            later,
            start_amplitude,
        ),
{
    if later < adsr.release {
        let r = adsr.release as int;
        let x = start_amplitude * (r - later);
        let y = start_amplitude * (r - earlier);
        assert(0 <= x <= y) by (nonlinear_arith)
            requires
                0 <= earlier <= later < r,
                0 <= start_amplitude,
                x == start_amplitude * (r - later),
                y == start_amplitude * (r - earlier),
        ;
        lemma_quotient_steps(x, y, r);
    }
}

/// Quotients by a positive number keep the order, and two numbers that lie
/// at least the divisor apart have different quotients.
pub proof fn lemma_quotient_steps(x: int, y: int, d: int)
    requires
        0 <= x <= y,
        d > 0,
    ensures
        x / d <= y / d,
        y - x >= d ==> x / d < y / d,
{
    assert(x / d <= y / d && (y - x >= d ==> x / d < y / d)) by (nonlinear_arith)
        requires
            0 <= x <= y,
            d > 0,
    ;
}

} // verus!
