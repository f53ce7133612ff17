use synth::adsr_source::ADSRState;
use synth::adsr_source::EnvelopeParams;
use synth::adsr_source::Gain;
use synth::note::Note;
use synth::note::Pitch;
use synth::synth::BasicSynth;
use synth::synth::Synth;

fn ten_hz_synth() -> BasicSynth {
    BasicSynth::new(EnvelopeParams {
        attack_max: 5,
        decay_max: 5,
        release_max: 5,
        sustain_num: 1,
        sustain_den: 2,
    })
}

#[test]
fn main_it_works() {
}

#[test]
fn play_note_is_idempotent() {
    let mut s = ten_hz_synth();
    let p = Pitch { note: Note::C, octave: 2 };
    s.play_note(p);
    s.play_note(p);
    assert_eq!(s.playing.len(), 1);
    assert_eq!(s.stopped.len(), 0);
    // The envelope was not reset by the second call either: a pulled sample,
    // a replay, and the ramp still continues where it left off.
    assert_eq!(s.next_sample_gain(p), Some(Gain { num: 1, den: 5 }));
    s.play_note(p);
    assert_eq!(s.playing.len(), 1);
    assert_eq!(s.next_sample_gain(p), Some(Gain { num: 2, den: 5 }));
}

#[test]
fn stop_note_on_absent_pitch_is_a_no_op() {
    let mut s = ten_hz_synth();
    let a = Pitch { note: Note::E, octave: 2 };
    let b = Pitch { note: Note::G, octave: 2 };
    s.stop_note(a);
    assert_eq!(s.playing.len(), 0);
    assert_eq!(s.stopped.len(), 0);
    s.play_note(a);
    s.next_sample_gain(a);
    s.stop_note(b);
    assert_eq!(s.playing.len(), 1);
    assert_eq!(s.stopped.len(), 0);
    // The sounding voice was left untouched.
    assert_eq!(s.next_sample_gain(a), Some(Gain { num: 2, den: 5 }));
}

#[test]
fn stop_note_moves_the_voice_to_the_released_map() {
    let mut s = ten_hz_synth();
    let p = Pitch { note: Note::Db, octave: 3 };
    s.play_note(p);
    s.stop_note(p);
    assert_eq!(s.playing.len(), 0);
    assert_eq!(s.stopped.len(), 1);
    assert_eq!(s.stopped[0].pitch, p);
    assert_eq!(s.stopped[0].env.state, ADSRState::Release);
    // The released voice keeps being pulled while it fades.
    assert_eq!(s.next_sample_gain(p), Some(Gain { num: 4, den: 10 }));
}

#[test]
fn next_sample_gain_is_none_for_an_unknown_pitch() {
    let mut s = ten_hz_synth();
    let p = Pitch { note: Note::F, octave: 1 };
    assert_eq!(s.next_sample_gain(p), None);
    s.play_note(p);
    assert_eq!(s.next_sample_gain(Pitch { note: Note::F, octave: 2 }), None);
}

#[test]
fn is_playing_tracks_the_sounding_map_only() {
    let mut s = ten_hz_synth();
    let p = Pitch { note: Note::A, octave: 4 };
    assert!(!s.is_playing(p));
    s.play_note(p);
    assert!(s.is_playing(p));
    s.stop_note(p);
    assert!(!s.is_playing(p));
}

#[test]
fn maps_stay_disjoint_under_plain_use() {
    let mut s = ten_hz_synth();
    let a = Pitch { note: Note::C, octave: 2 };
    let b = Pitch { note: Note::D, octave: 2 };
    let c = Pitch { note: Note::Eb, octave: 2 };
    s.play_note(a);
    s.play_note(b);
    s.play_note(c);
    s.stop_note(b);
    s.stop_note(a);
    assert_eq!(s.playing.len(), 1);
    assert_eq!(s.stopped.len(), 2);
    for v in s.playing.iter() {
        for w in s.stopped.iter() {
            assert_ne!(v.pitch, w.pitch);
        }
    }
}

#[test]
fn end_to_end_scenario_at_ten_hertz() {
    // 10 Hz, half a second of attack, decay and release, sustain 1/2; the
    // inner waveform is a constant, so the gains are the whole story.
    let mut s = ten_hz_synth();
    let p = Pitch { note: Note::C, octave: 2 };
    s.play_note(p);

    // Attack: 0.2, 0.4, 0.6, 0.8, 1.0.
    for k in 1..=5u64 {
        assert_eq!(s.next_sample_gain(p), Some(Gain { num: k, den: 5 }));
    }
    // Crossing the attack timer: one unshaped sample, state now Decay.
    assert_eq!(s.next_sample_gain(p), Some(Gain { num: 1, den: 1 }));
    assert_eq!(s.playing[0].env.state, ADSRState::Decay);

    // Decay: 0.9, 0.8, 0.7, 0.6, 0.5, then flat 0.5 forever.
    for k in 0..5u64 {
        assert_eq!(s.next_sample_gain(p), Some(Gain { num: 9 - k, den: 10 }));
    }
    for _ in 0..7 {
        assert_eq!(s.next_sample_gain(p), Some(Gain { num: 1, den: 2 }));
    }

    // Note-off, then 0.4, 0.3, 0.2, 0.1, 0.0, then flat 0.0.
    s.stop_note(p);
    for k in 1..=5u64 {
        assert_eq!(s.next_sample_gain(p), Some(Gain { num: 5 - k, den: 10 }));
    }
    for _ in 0..7 {
        assert_eq!(s.next_sample_gain(p), Some(Gain { num: 0, den: 10 }));
    }
}
