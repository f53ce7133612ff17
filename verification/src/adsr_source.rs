//! The per-voice ADSR envelope: a three-state machine that yields one exact
//! rational amplitude multiplier per pulled sample.
//!
//! Timing is counted in whole samples spent in the current state, and the
//! sustain level is a rational in `[0, 1]`, so every emitted gain is an exact
//! rational rather than an approximate floating-point value.

use vstd::prelude::*;

verus! {

/// The three phases of the envelope. There is no separate sustain phase:
/// sustain is the steady level that `Decay` settles into once its timer has
/// run out, while the machine stays logically in `Decay`.
#[derive(Clone, Copy, PartialEq, Eq, Debug, Structural)]
pub enum ADSRState {
    Attack,
    Decay,
    Release,
}

/// An amplitude multiplier, held exactly as the rational `num / den`.
#[derive(Clone, Copy, PartialEq, Eq, Debug, Structural)]
pub struct Gain {
    pub num: u64,
    pub den: u64,
}

impl Gain {
    /// A well-formed gain is a rational in `[0, 1]`.
    pub open spec fn wf(self) -> bool {
        1 <= self.den && self.num <= self.den
    }

    /// `self <= other` as rationals, by cross-multiplication; meaningful for
    /// positive denominators.
    pub open spec fn le(self, other: Gain) -> bool {
        self.num * other.den <= other.num * self.den
    }

    /// `self == other` as rationals, by cross-multiplication.
    pub open spec fn same_value(self, other: Gain) -> bool {
        self.num * other.den == other.num * self.den
    }

    /// The gain 1, full amplitude.
    pub open spec fn unit() -> Gain {
        Gain { num: 1, den: 1 }
    }
}

/// Envelope timing, as whole-sample thresholds (each the sample rate times
/// the phase duration in seconds), and the sustain level as a rational.
#[derive(Clone, Copy, PartialEq, Eq, Debug, Structural)]
pub struct EnvelopeParams {
    /// Samples the attack ramp lasts.
    pub attack_max: u32,
    /// Samples the decay ramp lasts.
    pub decay_max: u32,
    /// Samples the release fade lasts.
    pub release_max: u32,
    /// Numerator of the sustain level.
    pub sustain_num: u32,
    /// Denominator of the sustain level.
    pub sustain_den: u32,
}

impl EnvelopeParams {
    /// Every phase lasts at least one sample and the sustain level is a
    /// rational in `[0, 1]`.
    pub open spec fn wf(self) -> bool {
        &&& 1 <= self.attack_max
        &&& 1 <= self.decay_max
        &&& 1 <= self.release_max
        &&& 1 <= self.sustain_den
        &&& self.sustain_num <= self.sustain_den
    }

    /// The sustain level as a gain.
    pub open spec fn sustain(self) -> Gain {
        Gain { num: self.sustain_num as u64, den: self.sustain_den as u64 }
    }

    /// Envelope parameters from phase durations given in milliseconds: each
    /// phase's threshold is the sample rate times its duration in seconds,
    /// rounded down to whole samples. `None` when a phase would be shorter
    /// than one sample, when a threshold would not fit in a sample counter,
    /// or when the sustain rational is no level in `[0, 1]`.
    pub fn from_millis(
        sample_rate: u32,
        attack_ms: u32,
        decay_ms: u32,
        release_ms: u32,
        sustain_num: u32,
        sustain_den: u32,
    ) -> (r: Option<EnvelopeParams>)
        ensures
            r is Some <==> {
                &&& 1 <= samples_of(sample_rate, attack_ms) <= u32::MAX
                &&& 1 <= samples_of(sample_rate, decay_ms) <= u32::MAX
                &&& 1 <= samples_of(sample_rate, release_ms) <= u32::MAX
                &&& 1 <= sustain_den
                &&& sustain_num <= sustain_den
            },
            r matches Some(p) ==> p == (EnvelopeParams {
                attack_max: samples_of(sample_rate, attack_ms) as u32,
                decay_max: samples_of(sample_rate, decay_ms) as u32,
                release_max: samples_of(sample_rate, release_ms) as u32,
                sustain_num,
                sustain_den,
            }),
            r matches Some(p) ==> p.wf(),
    {
        let attack = checked_samples(sample_rate, attack_ms);
        let decay = checked_samples(sample_rate, decay_ms);
        let release = checked_samples(sample_rate, release_ms);
        match (attack, decay, release) {
            (Some(attack_max), Some(decay_max), Some(release_max)) => {
                if 1 <= sustain_den && sustain_num <= sustain_den {
                    Some(EnvelopeParams {
                        attack_max,
                        decay_max,
                        release_max,
                        sustain_num,
                        sustain_den,
                    })
                } else {
                    None
                }
            },
            _ => None,
        }
    }

    /// The default envelope at a given sample rate: one second each of
    /// attack, decay and release, and a sustain level of 7/10.
    pub fn defaults(sample_rate: u32) -> (p: EnvelopeParams)
        requires
            1 <= sample_rate,
        ensures
            p == (EnvelopeParams {
                attack_max: sample_rate,
                decay_max: sample_rate,
                release_max: sample_rate,
                sustain_num: 7,
                sustain_den: 10,
            }),
            p.wf(),
    {
        EnvelopeParams {
            attack_max: sample_rate,
            decay_max: sample_rate,
            release_max: sample_rate,
            sustain_num: 7,
            sustain_den: 10,
        }
    }
}

/// How many whole samples a duration of `ms` milliseconds spans at
/// `sample_rate` samples per second.
pub open spec fn samples_of(sample_rate: u32, ms: u32) -> int {
    sample_rate * ms / 1000
}

/// The sample threshold for one phase, or `None` when it is shorter than a
/// sample or too long for the counter.
fn checked_samples(sample_rate: u32, ms: u32) -> (r: Option<u32>)
    ensures
        r is Some <==> 1 <= samples_of(sample_rate, ms) <= u32::MAX,
        r matches Some(n) ==> n == samples_of(sample_rate, ms),
{
    proof {
        lemma_u32_mul_fits(sample_rate as int, ms as int);
    }
    let wide: u64 = sample_rate as u64 * ms as u64 / 1000;
    if 1 <= wide && wide <= u32::MAX as u64 {
        Some(wide as u32)
    } else {
        None
    }
}

/// The product of two sample-sized quantities fits a 64-bit word.
proof fn lemma_u32_mul_fits(a: int, b: int)
    by (nonlinear_arith)
    requires
        0 <= a <= 0xffff_ffff,
        0 <= b <= 0xffff_ffff,
    ensures
        0 <= a * b <= 0xffff_fffe_0000_0001,
{
}

/// The gain of the `elapsed`-th attack sample: `elapsed / attack_max`,
/// ramping linearly from `1 / max` up to 1.
pub open spec fn attack_gain(p: EnvelopeParams, elapsed: u32) -> Gain {
    Gain { num: elapsed as u64, den: p.attack_max as u64 }
}

/// The gain of the `elapsed`-th decay sample:
/// `sustain + (1 - sustain) * (max - elapsed) / max`, a linear ramp from 1
/// down to the sustain level, written over the common denominator
/// `sustain_den * decay_max`.
pub open spec fn decay_gain(p: EnvelopeParams, elapsed: u32) -> Gain {
    Gain {
        num: (p.sustain_num * p.decay_max + (p.sustain_den - p.sustain_num) * (p.decay_max
            - elapsed)) as u64,
        den: (p.sustain_den * p.decay_max) as u64,
    }
}

/// The gain of the `elapsed`-th release sample:
/// `sustain * (max - elapsed) / max`, a linear fade from just below the
/// sustain level down to 0.
pub open spec fn release_gain(p: EnvelopeParams, elapsed: u32) -> Gain {
    Gain {
        num: (p.sustain_num * (p.release_max - elapsed)) as u64,
        den: (p.sustain_den * p.release_max) as u64,
    }
}

/// The envelope of one voice: its timing parameters, the phase it is in and
/// how many samples it has spent there.
///
/// `next_gain` advances the machine by one pulled sample. The registry, not
/// the machine itself, moves a voice into `Release` via `set_release`; the
/// machine moves itself from `Attack` to `Decay` once the attack timer is
/// spent.
#[derive(Clone, Copy, PartialEq, Eq, Debug, Structural)]
pub struct ADSRSource {
    pub params: EnvelopeParams,
    pub state: ADSRState,
    pub elapsed: u32,
}

/// One step of the envelope machine: the successor state and the gain that
/// the step emits.
///
/// - `Attack`: while the timer runs, count the sample and emit
///   `elapsed / max`; the first sample past the timer is emitted unshaped
///   (gain exactly 1) and the machine flips to `Decay` with its timer reset.
/// - `Decay`: while the timer runs, count the sample and emit the ramp from 1
///   to the sustain level; ever after, emit the sustain level itself.
/// - `Release`: count the sample (the counter stops at the timer's end) and
///   emit the fade from the sustain level to 0, then 0 forever.
pub open spec fn spec_step(s: ADSRSource) -> (ADSRSource, Gain) {
    match s.state {
        ADSRState::Attack => if s.elapsed >= s.params.attack_max {
            (
                ADSRSource { state: ADSRState::Decay, elapsed: 0, ..s },
                Gain::unit(),
            )
        } else {
            (
                ADSRSource { elapsed: (s.elapsed + 1) as u32, ..s },
                attack_gain(s.params, (s.elapsed + 1) as u32),
            )
        },
        ADSRState::Decay => if s.elapsed >= s.params.decay_max {
            (s, s.params.sustain())
        } else {
            (
                ADSRSource { elapsed: (s.elapsed + 1) as u32, ..s },
                decay_gain(s.params, (s.elapsed + 1) as u32),
            )
        },
        ADSRState::Release => if s.elapsed >= s.params.release_max {
            (s, release_gain(s.params, s.elapsed))
        } else {
            (
                ADSRSource { elapsed: (s.elapsed + 1) as u32, ..s },
                release_gain(s.params, (s.elapsed + 1) as u32),
            )
        },
    }
}

impl ADSRSource {
    /// Valid parameters, and the in-state counter never runs past the
    /// current state's timer.
    pub open spec fn wf(self) -> bool {
        &&& self.params.wf()
        &&& match self.state {
            ADSRState::Attack => self.elapsed <= self.params.attack_max,
            ADSRState::Decay => self.elapsed <= self.params.decay_max,
            ADSRState::Release => self.elapsed <= self.params.release_max,
        }
    }

    /// A fresh envelope: in `Attack`, with its timer at 0.
    pub fn build(params: EnvelopeParams) -> (s: ADSRSource)
        requires
            params.wf(),
        ensures
            s == (ADSRSource { params, state: ADSRState::Attack, elapsed: 0 }),
            s.wf(),
    {
        ADSRSource { params, state: ADSRState::Attack, elapsed: 0 }
    }

    /// Move the voice into `Release` and restart the in-state counter; the
    /// registry calls this on note-off.
    pub fn set_release(&mut self)
        requires
            old(self).wf(),
        ensures
            *final(self) == (ADSRSource {
                state: ADSRState::Release,
                elapsed: 0,
                ..*old(self)
            }),
            final(self).wf(),
    {
        self.state = ADSRState::Release;
        self.elapsed = 0;
    }

    /// Advance by one pulled sample and return the gain to shape it with,
    /// exactly as `spec_step` describes. The gain is always a rational in
    /// `[0, 1]`: the envelope never amplifies beyond unity.
    pub fn next_gain(&mut self) -> (g: Gain)
        requires
            old(self).wf(),
        ensures
            *final(self) == spec_step(*old(self)).0,
            g == spec_step(*old(self)).1,
            final(self).wf(),
            g.wf(),
    {
        match self.state {
            ADSRState::Attack => {
                if self.elapsed >= self.params.attack_max {
                    self.state = ADSRState::Decay;
                    self.elapsed = 0;
                    Gain { num: 1, den: 1 }
                } else {
                    self.elapsed = self.elapsed + 1;
                    Gain { num: self.elapsed as u64, den: self.params.attack_max as u64 }
                }
            },
            ADSRState::Decay => {
                let sn: u64 = self.params.sustain_num as u64;
                let sd: u64 = self.params.sustain_den as u64;
                let dm: u64 = self.params.decay_max as u64;
                if self.elapsed >= self.params.decay_max {
                    Gain { num: sn, den: sd }
                } else {
                    self.elapsed = self.elapsed + 1;
                    let e: u64 = self.elapsed as u64;
                    proof {
                        lemma_decay_num_bounds(sn as int, sd as int, dm as int, e as int);
                    }
                    Gain { num: sn * dm + (sd - sn) * (dm - e), den: sd * dm }
                }
            },
            ADSRState::Release => {
                let sn: u64 = self.params.sustain_num as u64;
                let sd: u64 = self.params.sustain_den as u64;
                let rm: u64 = self.params.release_max as u64;
                if self.elapsed < self.params.release_max {
                    self.elapsed = self.elapsed + 1;
                }
                let e: u64 = self.elapsed as u64;
                proof {
                    lemma_release_num_bounds(sn as int, sd as int, rm as int, e as int);
                }
                Gain { num: sn * (rm - e), den: sd * rm }
            },
        }
    }
}

/// The decay numerator stays between `sustain_num * max` and the common
/// denominator `sustain_den * max`, so the decay gain lies in
/// `[sustain, 1]`.
proof fn lemma_decay_num_bounds(sn: int, sd: int, dm: int, e: int)
    by (nonlinear_arith)
    requires
        0 <= sn <= sd,
        1 <= sd <= 0xffff_ffff,
        1 <= dm <= 0xffff_ffff,
        0 <= e <= dm,
    ensures
        sn * dm <= sn * dm + (sd - sn) * (dm - e) <= sd * dm,
        sd <= sd * dm <= 0xffff_fffe_0000_0001,
{
}

/// The release numerator never exceeds the common denominator
/// `sustain_den * max`, so the release gain lies in `[0, sustain]`.
proof fn lemma_release_num_bounds(sn: int, sd: int, rm: int, e: int)
    by (nonlinear_arith)
    requires
        0 <= sn <= sd,
        1 <= sd <= 0xffff_ffff,
        1 <= rm <= 0xffff_ffff,
        0 <= e <= rm,
    ensures
        0 <= sn * (rm - e) <= sn * rm <= sd * rm,
        sd <= sd * rm <= 0xffff_fffe_0000_0001,
{
}

/// Attack begins audibly: the first sample pulled after entering `Attack`
/// carries the gain `1 / attack_max`, not 0.
pub proof fn lemma_attack_first_gain(s: ADSRSource)
    requires
        s.wf(),
        s.state == ADSRState::Attack,
        s.elapsed == 0,
    ensures
        spec_step(s).1 == (Gain { num: 1, den: s.params.attack_max as u64 }),
        spec_step(s).0.elapsed == 1,
        spec_step(s).0.state == ADSRState::Attack,
{
}

/// Attack ends at full amplitude: the sample that brings the timer to its
/// limit carries the gain `max / max`, exactly 1.
pub proof fn lemma_attack_reaches_unity(s: ADSRSource)
    requires
        s.wf(),
        s.state == ADSRState::Attack,
        s.elapsed == s.params.attack_max - 1,
    ensures
        spec_step(s).1.num == spec_step(s).1.den,
        spec_step(s).1.same_value(Gain::unit()),
{
}

/// The one sample pulled past the end of the attack timer is emitted
/// unshaped (gain exactly 1), and the machine flips to `Decay` with its
/// timer reset.
pub proof fn lemma_attack_boundary(s: ADSRSource)
    requires
        s.wf(),
        s.state == ADSRState::Attack,
        s.elapsed == s.params.attack_max,
    ensures
        spec_step(s).1 == Gain::unit(),
        spec_step(s).0.state == ADSRState::Decay,
        spec_step(s).0.elapsed == 0,
{
}

/// Decay starts where attack ended: at the moment of entry (no sample spent
/// in the state yet) the decay ramp's value is exactly 1.
pub proof fn lemma_decay_starts_at_unity(p: EnvelopeParams)
    requires
        p.wf(),
    ensures
        decay_gain(p, 0).num == decay_gain(p, 0).den,
        decay_gain(p, 0).same_value(Gain::unit()),
{
    let sn = p.sustain_num as int;
    let sd = p.sustain_den as int;
    let dm = p.decay_max as int;
    assert(sn * dm + (sd - sn) * (dm - 0) == sd * dm) by (nonlinear_arith);
    lemma_decay_num_bounds(sn, sd, dm, 0);
}

/// The decay ramp is monotone: as more samples are spent in `Decay`, the
/// gain never rises.
pub proof fn lemma_decay_monotonic(p: EnvelopeParams, e1: u32, e2: u32)
    requires
        p.wf(),
        e1 <= e2 <= p.decay_max,
    ensures
        decay_gain(p, e2).le(decay_gain(p, e1)),
{
    let sn = p.sustain_num as int;
    let sd = p.sustain_den as int;
    let dm = p.decay_max as int;
    let n1 = sn * dm + (sd - sn) * (dm - e1);
    let n2 = sn * dm + (sd - sn) * (dm - e2);
    assert(n2 <= n1) by (nonlinear_arith)
        requires
            0 <= sn <= sd,
            0 <= e1 <= e2 <= dm,
            n1 == sn * dm + (sd - sn) * (dm - e1),
            n2 == sn * dm + (sd - sn) * (dm - e2);
    lemma_decay_num_bounds(sn, sd, dm, e1 as int);
    lemma_decay_num_bounds(sn, sd, dm, e2 as int);
    assert(n2 * (sd * dm) <= n1 * (sd * dm)) by (nonlinear_arith)
        requires
            n2 <= n1,
            0 <= sd * dm;
}

/// The decay ramp bottoms out exactly at the sustain level.
pub proof fn lemma_decay_ends_at_sustain(p: EnvelopeParams)
    requires
        p.wf(),
    ensures
        decay_gain(p, p.decay_max).same_value(p.sustain()),
{
    let sn = p.sustain_num as int;
    let sd = p.sustain_den as int;
    let dm = p.decay_max as int;
    lemma_decay_num_bounds(sn, sd, dm, dm);
    assert(sn * dm + (sd - sn) * (dm - dm) == sn * dm) by (nonlinear_arith);
    assert((sn * dm) * sd == sn * (sd * dm)) by (nonlinear_arith);
}

/// Sustain is a plateau, not a timed phase: once the decay timer is spent,
/// every further sample carries exactly the sustain level and the machine
/// stays in `Decay` unchanged, indefinitely.
pub proof fn lemma_decay_plateau(s: ADSRSource)
    requires
        s.wf(),
        s.state == ADSRState::Decay,
        s.elapsed >= s.params.decay_max,
    ensures
        spec_step(s).1 == s.params.sustain(),
        spec_step(s).0 == s,
{
}

/// The first sample pulled after a voice is put into `Release` carries the
/// gain `sustain * (max - 1) / max`: close to, but no higher than, the
/// sustain level.
pub proof fn lemma_release_first_gain(s: ADSRSource)
    requires
        s.wf(),
        s.state == ADSRState::Release,
        s.elapsed == 0,
    ensures
        spec_step(s).1 == release_gain(s.params, 1),
        spec_step(s).1.le(s.params.sustain()),
        spec_step(s).0.elapsed == 1,
{
    let sn = s.params.sustain_num as int;
    let sd = s.params.sustain_den as int;
    let rm = s.params.release_max as int;
    lemma_release_num_bounds(sn, sd, rm, 1);
    assert((sn * (rm - 1)) * sd <= sn * (sd * rm)) by (nonlinear_arith)
        requires
            0 <= sn <= sd,
            1 <= rm;
}

/// The release fade is monotone: as more samples are spent in `Release`,
/// the gain never rises.
pub proof fn lemma_release_monotonic(p: EnvelopeParams, e1: u32, e2: u32)
    requires
        p.wf(),
        e1 <= e2 <= p.release_max,
    ensures
        release_gain(p, e2).le(release_gain(p, e1)),
{
    let sn = p.sustain_num as int;
    let sd = p.sustain_den as int;
    let rm = p.release_max as int;
    lemma_release_num_bounds(sn, sd, rm, e1 as int);
    lemma_release_num_bounds(sn, sd, rm, e2 as int);
    assert((sn * (rm - e2)) * (sd * rm) <= (sn * (rm - e1)) * (sd * rm)) by (nonlinear_arith)
        requires
            0 <= sn <= sd,
            0 <= e1 <= e2 <= rm;
}

/// The release fade reaches silence exactly when its timer is spent, and a
/// voice that has faded out stays silent: every later sample carries gain 0
/// and leaves the machine unchanged.
pub proof fn lemma_release_reaches_zero(s: ADSRSource)
    requires
        s.wf(),
        s.state == ADSRState::Release,
        s.elapsed == s.params.release_max,
    ensures
        spec_step(s).1.num == 0,
        spec_step(s).0 == s,
{
    let sn = s.params.sustain_num as int;
    let rm = s.params.release_max as int;
    assert(sn * (rm - rm) == 0) by (nonlinear_arith);
}

} // verus!
