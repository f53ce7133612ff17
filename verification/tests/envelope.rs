use synth::adsr_source::ADSRSource;
use synth::adsr_source::ADSRState;
use synth::adsr_source::EnvelopeParams;
use synth::adsr_source::Gain;

fn ten_hz_params() -> EnvelopeParams {
    // 10 Hz sample rate, half a second per phase, sustain 1/2.
    EnvelopeParams { attack_max: 5, decay_max: 5, release_max: 5, sustain_num: 1, sustain_den: 2 }
}

#[test]
fn attack_ramps_linearly_then_flips_to_decay() {
    let mut env = ADSRSource::build(ten_hz_params());
    for k in 1..=5u64 {
        let g = env.next_gain();
        assert_eq!(g, Gain { num: k, den: 5 });
        assert_eq!(env.state, ADSRState::Attack);
    }
    // The first sample past the attack timer is unshaped and flips the state.
    let g = env.next_gain();
    assert_eq!(g, Gain { num: 1, den: 1 });
    assert_eq!(env.state, ADSRState::Decay);
    assert_eq!(env.elapsed, 0);
}

#[test]
fn attack_first_gain_is_one_over_max_not_zero() {
    let mut env = ADSRSource::build(EnvelopeParams {
        attack_max: 48000,
        decay_max: 48000,
        release_max: 48000,
        sustain_num: 7,
        sustain_den: 10,
    });
    let g = env.next_gain();
    assert_eq!(g, Gain { num: 1, den: 48000 });
}

#[test]
fn one_sample_attack_edge() {
    let mut env = ADSRSource::build(EnvelopeParams {
        attack_max: 1,
        decay_max: 1,
        release_max: 1,
        sustain_num: 1,
        sustain_den: 2,
    });
    // The single attack sample reaches full amplitude at once.
    assert_eq!(env.next_gain(), Gain { num: 1, den: 1 });
    // The next sample crosses the timer: unshaped, and Decay from here on.
    assert_eq!(env.next_gain(), Gain { num: 1, den: 1 });
    assert_eq!(env.state, ADSRState::Decay);
}

#[test]
fn decay_ramps_from_near_unity_down_to_sustain() {
    let mut env = ADSRSource::build(ten_hz_params());
    for _ in 0..6 {
        env.next_gain();
    }
    assert_eq!(env.state, ADSRState::Decay);
    // 0.9, 0.8, 0.7, 0.6, 0.5 — continuity with attack's end, then the ramp.
    for k in 0..5u64 {
        let g = env.next_gain();
        assert_eq!(g, Gain { num: 9 - k, den: 10 });
    }
}

#[test]
fn sustain_is_a_plateau_not_a_timed_phase() {
    let mut env = ADSRSource::build(ten_hz_params());
    for _ in 0..11 {
        env.next_gain();
    }
    // The decay timer is spent; the level holds at sustain indefinitely and
    // the machine stays in Decay.
    for _ in 0..20 {
        let g = env.next_gain();
        assert_eq!(g, Gain { num: 1, den: 2 });
        assert_eq!(env.state, ADSRState::Decay);
        assert_eq!(env.elapsed, 5);
    }
}

#[test]
fn release_fades_to_zero_and_stays_silent() {
    let mut env = ADSRSource::build(ten_hz_params());
    for _ in 0..8 {
        env.next_gain();
    }
    env.set_release();
    assert_eq!(env.state, ADSRState::Release);
    assert_eq!(env.elapsed, 0);
    // 0.4, 0.3, 0.2, 0.1, 0.0: sustain * (max - k) / max.
    for k in 1..=5u64 {
        let g = env.next_gain();
        assert_eq!(g, Gain { num: 5 - k, den: 10 });
    }
    // Silent forever after.
    for _ in 0..20 {
        let g = env.next_gain();
        assert_eq!(g, Gain { num: 0, den: 10 });
    }
}

#[test]
fn release_out_of_attack_fades_from_sustain_level() {
    let mut env = ADSRSource::build(ten_hz_params());
    env.next_gain();
    // Released while still attacking: the fade still starts from the
    // sustain level, as the envelope design prescribes.
    env.set_release();
    assert_eq!(env.next_gain(), Gain { num: 4, den: 10 });
}

#[test]
fn full_sustain_keeps_decay_at_unity() {
    let mut env = ADSRSource::build(EnvelopeParams {
        attack_max: 2,
        decay_max: 4,
        release_max: 4,
        sustain_num: 1,
        sustain_den: 1,
    });
    for _ in 0..3 {
        env.next_gain();
    }
    assert_eq!(env.state, ADSRState::Decay);
    for _ in 0..6 {
        let g = env.next_gain();
        assert_eq!(g.num, g.den);
    }
}

#[test]
fn every_gain_stays_within_unity() {
    let mut env = ADSRSource::build(EnvelopeParams {
        attack_max: 3,
        decay_max: 7,
        release_max: 4,
        sustain_num: 2,
        sustain_den: 3,
    });
    let mut gains: Vec<Gain> = Vec::new();
    for _ in 0..15 {
        gains.push(env.next_gain());
    }
    env.set_release();
    for _ in 0..10 {
        gains.push(env.next_gain());
    }
    for g in gains {
        assert!(g.den >= 1);
        assert!(g.num <= g.den);
    }
}

#[test]
fn from_millis_converts_durations_to_sample_thresholds() {
    let p = EnvelopeParams::from_millis(10, 500, 500, 500, 1, 2).unwrap();
    assert_eq!(p, ten_hz_params());
    let q = EnvelopeParams::from_millis(48000, 1000, 250, 2000, 7, 10).unwrap();
    assert_eq!(q.attack_max, 48000);
    assert_eq!(q.decay_max, 12000);
    assert_eq!(q.release_max, 96000);
}

#[test]
fn from_millis_rejects_sub_sample_phases_and_bad_sustain() {
    // 10 Hz for 50 ms spans less than one sample.
    assert_eq!(EnvelopeParams::from_millis(10, 50, 500, 500, 1, 2), None);
    assert_eq!(EnvelopeParams::from_millis(48000, 1000, 0, 1000, 7, 10), None);
    // A sustain above unity is no level.
    assert_eq!(EnvelopeParams::from_millis(10, 500, 500, 500, 3, 2), None);
    assert_eq!(EnvelopeParams::from_millis(10, 500, 500, 500, 1, 0), None);
}

#[test]
fn defaults_are_one_second_phases_at_the_given_rate() {
    let p = EnvelopeParams::defaults(44100);
    assert_eq!(p.attack_max, 44100);
    assert_eq!(p.decay_max, 44100);
    assert_eq!(p.release_max, 44100);
    assert_eq!(p.sustain_num, 7);
    assert_eq!(p.sustain_den, 10);
}
