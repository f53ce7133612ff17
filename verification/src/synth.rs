//! The voice lifecycle registry: note-on and note-off bookkeeping for the
//! set of currently sounding and released voices, and the per-sample pull
//! path that advances a voice's envelope.

use vstd::pervasive::VecAdditionalExecFns;
use vstd::prelude::*;

use crate::adsr_source::ADSRSource;
use crate::adsr_source::ADSRState;
use crate::adsr_source::EnvelopeParams;
use crate::adsr_source::Gain;
use crate::adsr_source::spec_step;
use crate::note::Pitch;

verus! {

/// One sounding instance of a pitch: the pitch that keys it and its
/// envelope. The raw waveform and the output sink that play it belong to
/// the surrounding application.
#[derive(Clone, Copy, PartialEq, Eq, Debug, Structural)]
pub struct Voice {
    pub pitch: Pitch,
    pub env: ADSRSource,
}

/// Whether some voice in the sequence is keyed by `pitch`.
pub open spec fn has_pitch(s: Seq<Voice>, pitch: Pitch) -> bool {
    exists|i: int| 0 <= i < s.len() && s[i].pitch == pitch
}

/// The index of the voice keyed by `pitch`; meaningful when `has_pitch`
/// holds, and unique when the sequence holds no repeated pitch.
pub open spec fn index_of(s: Seq<Voice>, pitch: Pitch) -> int {
    choose|i: int| 0 <= i < s.len() && s[i].pitch == pitch
}

/// No two voices in the sequence share a pitch.
pub open spec fn unique_pitches(s: Seq<Voice>) -> bool {
    forall|i: int, j: int| 0 <= i < j < s.len() ==> s[i].pitch != s[j].pitch
}

/// No pitch keys a voice in both sequences at once.
pub open spec fn disjoint_pitches(a: Seq<Voice>, b: Seq<Voice>) -> bool {
    forall|i: int, j: int|
        0 <= i < a.len() && 0 <= j < b.len() ==> a[i].pitch != b[j].pitch
}

/// The envelope of a voice the moment it is released: in `Release`, with
/// its in-state counter restarted.
pub open spec fn released_env(env: ADSRSource) -> ADSRSource {
    ADSRSource { state: ADSRState::Release, elapsed: 0, ..env }
}

/// What note-on does to the sounding voices: a pitch already present is
/// left untouched; otherwise a fresh voice in `Attack` is appended.
pub open spec fn spec_play(playing: Seq<Voice>, params: EnvelopeParams, pitch: Pitch) -> Seq<
    Voice,
> {
    if has_pitch(playing, pitch) {
        playing
    } else {
        playing.push(
            Voice {
                pitch,
                env: ADSRSource { params, state: ADSRState::Attack, elapsed: 0 },
            },
        )
    }
}

/// What note-off does to the two maps: a pitch not sounding leaves both
/// untouched; otherwise its voice moves from the sounding map to the
/// released map with its envelope put into `Release`, replacing any released
/// voice that still lingered under the same pitch.
pub open spec fn spec_stop(playing: Seq<Voice>, stopped: Seq<Voice>, pitch: Pitch) -> (Seq<
    Voice,
>, Seq<Voice>) {
    if has_pitch(playing, pitch) {
        let voice = Voice { pitch, env: released_env(playing[index_of(playing, pitch)].env) };
        (
            playing.remove(index_of(playing, pitch)),
            if has_pitch(stopped, pitch) {
                stopped.update(index_of(stopped, pitch), voice)
            } else {
                stopped.push(voice)
            },
        )
    } else {
        (playing, stopped)
    }
}

/// A source of note-on / note-off handling.
pub trait Synth {
    /// The implementor's validity invariant, preserved by both operations.
    spec fn inv(&self) -> bool;

    /// Begin sounding `pitch`; a pitch already sounding is left untouched.
    fn play_note(&mut self, pitch: Pitch)
        requires
            old(self).inv(),
        ensures
            final(self).inv(),
    ;

    /// Release `pitch`; a pitch not currently sounding is left untouched.
    fn stop_note(&mut self, pitch: Pitch)
        requires
            old(self).inv(),
        ensures
            final(self).inv(),
    ;
}

/// The registry of voices: `playing` holds the sounding voices, `stopped`
/// the released ones whose tails are still fading out. Voices are keyed by
/// pitch; each map holds at most one voice per pitch. Released voices are
/// never removed here: disposing of a fully-silent voice is the surrounding
/// application's concern.
pub struct BasicSynth {
    pub playing: Vec<Voice>,
    pub stopped: Vec<Voice>,
    pub params: EnvelopeParams,
}

/// Find the voice keyed by `pitch`, if any.
fn find_pitch(v: &Vec<Voice>, pitch: Pitch) -> (r: Option<usize>)
    ensures
        match r {
            Some(i) => i < v@.len() && v@[i as int].pitch == pitch,
            None => !has_pitch(v@, pitch),
        },
{
    let mut i: usize = 0;
    while i < v.len()
        invariant
            i <= v@.len(),
            forall|j: int| 0 <= j < i ==> v@[j].pitch != pitch,
        decreases v@.len() - i,
    {
        if v[i].pitch == pitch {
            return Some(i);
        }
        i = i + 1;
    }
    None
}

impl BasicSynth {
    /// Valid parameters, at most one voice per pitch in each map, and every
    /// held envelope valid.
    pub open spec fn wf(&self) -> bool {
        &&& self.params.wf()
        &&& unique_pitches(self.playing@)
        &&& unique_pitches(self.stopped@)
        &&& forall|i: int| 0 <= i < self.playing@.len() ==> (#[trigger] self.playing@[i]).env.wf()
        &&& forall|i: int| 0 <= i < self.stopped@.len() ==> (#[trigger] self.stopped@[i]).env.wf()
    }

    /// An empty registry that will shape every new voice with `params`.
    pub fn new(params: EnvelopeParams) -> (s: BasicSynth)
        requires
            params.wf(),
        ensures
            s.playing@ == Seq::<Voice>::empty(),
            s.stopped@ == Seq::<Voice>::empty(),
            s.params == params,
            s.wf(),
    {
        BasicSynth { playing: Vec::new(), stopped: Vec::new(), params }
    }

    /// The sample-production path: advance the envelope of the voice keyed
    /// by `pitch` — sounding or released — by one pulled sample and return
    /// the gain to shape that sample with, or `None` when no such voice
    /// exists. Every returned gain is a rational in `[0, 1]`.
    pub fn next_sample_gain(&mut self, pitch: Pitch) -> (g: Option<Gain>)
        requires
            old(self).wf(),
        ensures
            final(self).wf(),
            final(self).params == old(self).params,
            has_pitch(old(self).playing@, pitch) ==> {
                let i = index_of(old(self).playing@, pitch);
                &&& g == Some(spec_step(old(self).playing@[i].env).1)
                &&& final(self).playing@ == old(self).playing@.update(
                    i,
                    Voice { pitch, env: spec_step(old(self).playing@[i].env).0 },
                )
                &&& final(self).stopped@ == old(self).stopped@
            },
            !has_pitch(old(self).playing@, pitch) && has_pitch(old(self).stopped@, pitch) ==> {
                let i = index_of(old(self).stopped@, pitch);
                &&& g == Some(spec_step(old(self).stopped@[i].env).1)
                &&& final(self).stopped@ == old(self).stopped@.update(
                    i,
                    Voice { pitch, env: spec_step(old(self).stopped@[i].env).0 },
                )
                &&& final(self).playing@ == old(self).playing@
            },
            !has_pitch(old(self).playing@, pitch) && !has_pitch(old(self).stopped@, pitch) ==> {
                &&& *final(self) == *old(self)
                &&& g is None
            },
            g matches Some(gg) ==> gg.wf(),
    {
        let r = find_pitch(&self.playing, pitch);
        match r {
            Some(i) => {
                proof {
                    lemma_index_of_unique(old(self).playing@, pitch, i as int);
                }
                let mut voice = self.playing.remove(i);
                let gg = voice.env.next_gain();
                self.playing.insert(i, voice);
                proof {
                    assert(self.playing@ =~= old(self).playing@.update(
                        i as int,
                        Voice { pitch, env: spec_step(old(self).playing@[i as int].env).0 },
                    ));
                }
                Some(gg)
            },
            None => {
                let rs = find_pitch(&self.stopped, pitch);
                match rs {
                    Some(j) => {
                        proof {
                            lemma_index_of_unique(old(self).stopped@, pitch, j as int);
                        }
                        let mut voice = self.stopped.remove(j);
                        let gg = voice.env.next_gain();
                        self.stopped.insert(j, voice);
                        proof {
                            assert(self.stopped@ =~= old(self).stopped@.update(
                                j as int,
                                Voice {
                                    pitch,
                                    env: spec_step(old(self).stopped@[j as int].env).0,
                                },
                            ));
                        }
                        Some(gg)
                    },
                    None => None,
                }
            },
        }
    }

    /// Whether `pitch` currently keys a sounding voice.
    pub fn is_playing(&self, pitch: Pitch) -> (b: bool)
        ensures
            b == has_pitch(self.playing@, pitch),
    {
        let r = find_pitch(&self.playing, pitch);
        match r {
            Some(i) => {
                proof {
                    assert(self.playing@[i as int].pitch == pitch);
                }
                true
            },
            None => false,
        }
    }
}

impl Synth for BasicSynth {
    open spec fn inv(&self) -> bool {
        self.wf()
    }

    /// Note-on, exactly as `spec_play` describes: idempotent for a pitch
    /// already sounding, and blind to the released voices.
    fn play_note(&mut self, pitch: Pitch)
        ensures
            final(self).playing@ == spec_play(old(self).playing@, old(self).params, pitch),
            final(self).stopped@ == old(self).stopped@,
            final(self).params == old(self).params,
            has_pitch(old(self).playing@, pitch) ==> *final(self) == *old(self),
    {
        let r = find_pitch(&self.playing, pitch);
        match r {
            Some(i) => {
                proof {
                    assert(self.playing@[i as int].pitch == pitch);
                }
            },
            None => {
                let env = ADSRSource::build(self.params);
                self.playing.push(Voice { pitch, env });
            },
        }
    }

    /// Note-off, exactly as `spec_stop` describes: a no-op for a pitch that
    /// is not sounding, otherwise the move from `playing` to `stopped` with
    /// the envelope put into `Release`.
    fn stop_note(&mut self, pitch: Pitch)
        ensures
            final(self).playing@ == spec_stop(old(self).playing@, old(self).stopped@, pitch).0,
            final(self).stopped@ == spec_stop(old(self).playing@, old(self).stopped@, pitch).1,
            final(self).params == old(self).params,
            !has_pitch(old(self).playing@, pitch) ==> *final(self) == *old(self),
    {
        let r = find_pitch(&self.playing, pitch);
        match r {
            None => {},
            Some(i) => {
                proof {
                    assert(old(self).playing@[i as int].pitch == pitch);
                    lemma_index_of_unique(old(self).playing@, pitch, i as int);
                }
                let mut voice = self.playing.remove(i);
                voice.env.set_release();
                let rs = find_pitch(&self.stopped, pitch);
                match rs {
                    Some(j) => {
                        proof {
                            assert(old(self).stopped@[j as int].pitch == pitch);
                            lemma_index_of_unique(old(self).stopped@, pitch, j as int);
                        }
                        self.stopped.set(j, voice);
                    },
                    None => {
                        self.stopped.push(voice);
                    },
                }
            },
        }
    }
}

/// Note-on is idempotent: playing a pitch twice in a row, with no
/// intervening note-off, leaves the registry exactly as playing it once
/// does — no duplicate voice, no envelope reset.
pub proof fn lemma_play_note_idempotent(playing: Seq<Voice>, params: EnvelopeParams, pitch: Pitch)
    ensures
        spec_play(spec_play(playing, params, pitch), params, pitch) == spec_play(
            playing,
            params,
            pitch,
        ),
{
    let once = spec_play(playing, params, pitch);
    if !has_pitch(playing, pitch) {
        assert(once[playing.len() as int].pitch == pitch);
        assert(has_pitch(once, pitch));
    }
}

/// Note-off keeps the sounding and released maps disjoint: whatever pitch
/// is stopped, no pitch ends up keying a voice in both.
pub proof fn lemma_stop_note_preserves_disjoint(
    playing: Seq<Voice>,
    stopped: Seq<Voice>,
    pitch: Pitch,
)
    requires
        unique_pitches(playing),
        disjoint_pitches(playing, stopped),
    ensures
        disjoint_pitches(spec_stop(playing, stopped, pitch).0, spec_stop(playing, stopped, pitch).1),
{
    if has_pitch(playing, pitch) {
        let i = index_of(playing, pitch);
        let after_playing = playing.remove(i);
        let after_stopped = spec_stop(playing, stopped, pitch).1;
        assert forall|a: int, b: int|
            0 <= a < after_playing.len() && 0 <= b < after_stopped.len() implies after_playing[a].pitch
            != after_stopped[b].pitch by {
            let a0 = if a < i {
                a
            } else {
                a + 1
            };
            assert(after_playing[a] == playing[a0]);
            if after_stopped[b].pitch == pitch {
                if a0 < i {
                    assert(playing[a0].pitch != playing[i].pitch);
                } else {
                    assert(playing[i].pitch != playing[a0].pitch);
                }
            } else {
                assert(stopped.contains(after_stopped[b]) || after_stopped[b].pitch == pitch) by {
                    if has_pitch(stopped, pitch) {
                        if b != index_of(stopped, pitch) {
                            assert(after_stopped[b] == stopped[b]);
                            assert(stopped.contains(after_stopped[b]));
                        }
                    } else {
                        if b < stopped.len() {
                            assert(after_stopped[b] == stopped[b]);
                            assert(stopped.contains(after_stopped[b]));
                        }
                    }
                }
                if stopped.contains(after_stopped[b]) {
                    let b0 = choose|k: int|
                        0 <= k < stopped.len() && stopped[k] == after_stopped[b];
                    assert(playing[a0].pitch != stopped[b0].pitch);
                }
            }
        }
    }
}

/// Note-on keeps the sounding and released maps disjoint, provided the
/// pitch being played has no released voice still lingering. (Replaying a
/// pitch whose released tail has not yet been disposed of re-enters it on
/// the sounding side while the old voice still sits on the released side;
/// note-on never looks at the released map.)
pub proof fn lemma_play_note_preserves_disjoint(
    playing: Seq<Voice>,
    stopped: Seq<Voice>,
    params: EnvelopeParams,
    pitch: Pitch,
)
    requires
        disjoint_pitches(playing, stopped),
        !has_pitch(stopped, pitch),
    ensures
        disjoint_pitches(spec_play(playing, params, pitch), stopped),
{
    let after = spec_play(playing, params, pitch);
    if !has_pitch(playing, pitch) {
        assert forall|a: int, b: int|
            0 <= a < after.len() && 0 <= b < stopped.len() implies after[a].pitch
            != stopped[b].pitch by {
            if a < playing.len() {
                assert(after[a] == playing[a]);
            } else {
                assert(after[a].pitch == pitch);
            }
        }
    }
}

/// In a sequence with no repeated pitch, any index holding `pitch` is the
/// one `index_of` denotes.
proof fn lemma_index_of_unique(s: Seq<Voice>, pitch: Pitch, i: int)
    requires
        unique_pitches(s),
        0 <= i < s.len(),
        s[i].pitch == pitch,
    ensures
        index_of(s, pitch) == i,
        has_pitch(s, pitch),
{
    assert(has_pitch(s, pitch));
    let k = index_of(s, pitch);
    assert(0 <= k < s.len() && s[k].pitch == pitch);
    if k < i {
        assert(s[k].pitch != s[i].pitch);
    } else if i < k {
        assert(s[i].pitch != s[k].pitch);
    }
}

} // verus!
