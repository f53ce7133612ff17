//! Musical note identities: semitone classes, pitches and their position on
//! the chromatic scale.

use vstd::prelude::*;

verus! {

/// One of the twelve semitone classes of the chromatic scale.
#[derive(Clone, Copy, PartialEq, Eq, Hash, Debug, Structural)]
pub enum Note {
    C,
    Db,
    D,
    Eb,
    E,
    F,
    Gb,
    G,
    Ab,
    A,
    Bb,
    B,
}

/// A pitch: a semitone class together with its octave. Pitches are compared
/// by value and serve as the unique key of a sounding voice.
#[derive(Clone, Copy, PartialEq, Eq, Hash, Debug, Structural)]
pub struct Pitch {
    pub note: Note,
    pub octave: i32,
}

/// The position of a semitone class within its octave, `C` being 0.
pub open spec fn note_index(note: Note) -> int {
    match note {
        Note::C => 0,
        Note::Db => 1,
        Note::D => 2,
        Note::Eb => 3,
        Note::E => 4,
        Note::F => 5,
        Note::Gb => 6,
        Note::G => 7,
        Note::Ab => 8,
        Note::A => 9,
        Note::Bb => 10,
        Note::B => 11,
    }
}

/// The number of semitones separating a pitch from C in octave 0.
pub open spec fn pitch_semitones(pitch: Pitch) -> int {
    note_index(pitch.note) + 12 * pitch.octave
}

/// How many semitones above (or, negative, below) C0 a pitch lies.
pub fn semitones_from_c0(pitch: Pitch) -> (n: i32)
    requires
        i32::MIN <= pitch_semitones(pitch) <= i32::MAX,
    ensures
        n == pitch_semitones(pitch),
{
    let note_number: i32 = match pitch.note {
        Note::C => 0,
        Note::Db => 1,
        Note::D => 2,
        Note::Eb => 3,
        Note::E => 4,
        Note::F => 5,
        Note::Gb => 6,
        Note::G => 7,
        Note::Ab => 8,
        Note::A => 9,
        Note::Bb => 10,
        Note::B => 11,
    };
    let wide: i64 = note_number as i64 + 12 * (pitch.octave as i64);
    wide as i32
}

} // verus!
