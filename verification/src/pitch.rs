//! Pitch classes and intervals, and the arithmetic on the twelve-note circle.

use vstd::pervasive::unreached;
use vstd::prelude::*;
use crate::error::Inconsistency;

verus! {

/// One of the twelve pitch classes, named with sharps only.
#[derive(Copy, Clone, Debug, PartialEq, Eq, Structural)]
pub enum Note {
    C,
    /// C sharp, or D flat.
    CSharp,
    D,
    /// D sharp, or E flat.
    DSharp,
    E,
    F,
    /// F sharp, or G flat.
    FSharp,
    G,
    /// G sharp, or A flat.
    GSharp,
    A,
    /// A sharp, or B flat.
    ASharp,
    B,
}

impl Note {
    /// The position of the pitch class on the circle: `C` is 0 and `B` is 11.
    pub open spec fn index(self) -> int {
        match self {
            Note::C => 0,
            Note::CSharp => 1,
            Note::D => 2,
            Note::DSharp => 3,
            Note::E => 4,
            Note::F => 5,
            Note::FSharp => 6,
            Note::G => 7,
            Note::GSharp => 8,
            Note::A => 9,
            Note::ASharp => 10,
            Note::B => 11,
        }
    }

    /// The pitch class at position `i` of the circle, for `i` from 0 to 11.
    pub open spec fn at(i: int) -> Note
        recommends
            0 <= i < 12,
    {
        if i == 0 {
            Note::C
        } else if i == 1 {
            Note::CSharp
        } else if i == 2 {
            Note::D
        } else if i == 3 {
            Note::DSharp
        } else if i == 4 {
            Note::E
        } else if i == 5 {
            Note::F
        } else if i == 6 {
            Note::FSharp
        } else if i == 7 {
            Note::G
        } else if i == 8 {
            Note::GSharp
        } else if i == 9 {
            Note::A
        } else if i == 10 {
            Note::ASharp
        } else {
            Note::B
        }
    }

    /// The name of the pitch class as it is printed.
    pub open spec fn name(self) -> Seq<char> {
        match self {
            Note::C => "C"@,
            Note::CSharp => "C#"@,
            Note::D => "D"@,
            Note::DSharp => "D#"@,
            Note::E => "E"@,
            Note::F => "F"@,
            Note::FSharp => "F#"@,
            Note::G => "G"@,
            Note::GSharp => "G#"@,
            Note::A => "A"@,
            Note::ASharp => "A#"@,
            Note::B => "B"@,
        }
    }

    /// Converts the note to its position on the circle.
    pub fn as_u8(&self) -> (v: u8)
        ensures
            v as int == self.index(),
            v < 12,
    {
        match self {
            Note::C => 0,
            Note::CSharp => 1,
            Note::D => 2,
            Note::DSharp => 3,
            Note::E => 4,
            Note::F => 5,
            Note::FSharp => 6,
            Note::G => 7,
            Note::GSharp => 8,
            Note::A => 9,
            Note::ASharp => 10,
            Note::B => 11,
        }
    }

    /// Converts a position on the circle to its note, or reports the position
    /// when it lies past the circle.
    pub fn try_from_u8(val: u8) -> (r: Result<Note, Inconsistency>)
        ensures
            val < 12 ==> r == Ok::<Note, Inconsistency>(Note::at(val as int)),
            val >= 12 ==> r == Err::<Note, Inconsistency>(
                Inconsistency::InvalidPitchIndex { index: val },
            ),
    {
        match val {
            0 => Ok(Note::C),
            1 => Ok(Note::CSharp),
            2 => Ok(Note::D),
            3 => Ok(Note::DSharp),
            4 => Ok(Note::E),
            5 => Ok(Note::F),
            6 => Ok(Note::FSharp),
            7 => Ok(Note::G),
            8 => Ok(Note::GSharp),
            9 => Ok(Note::A),
            10 => Ok(Note::ASharp),
            11 => Ok(Note::B),
            _ => Err(Inconsistency::InvalidPitchIndex { index: val }),
        }
    }

    /// Converts a position on the circle to its note.
    pub fn from_u8(val: u8) -> (note: Note)
        requires
            val < 12,
        ensures
            note == Note::at(val as int),
            note.index() == val,
    {
        match Note::try_from_u8(val) {
            Ok(note) => note,
            Err(_) => unreached(),
        }
    }

    /// The printed name: the letter, followed by `#` for a sharp.
    pub fn to_string(&self) -> (text: String)
        ensures
            text@ == self.name(),
    {
        let name: &'static str = match self {
            Note::C => "C",
            Note::CSharp => "C#",
            Note::D => "D",
            Note::DSharp => "D#",
            Note::E => "E",
            Note::F => "F",
            Note::FSharp => "F#",
            Note::G => "G",
            Note::GSharp => "G#",
            Note::A => "A",
            Note::ASharp => "A#",
            Note::B => "B",
        };
        name.to_owned()
    }
}

/// Positions and notes correspond one to one: each note stands at its own
/// index, and each position from 0 to 11 is the index of the note found there.
pub proof fn lemma_note_index_bijection(note: Note, i: int)
    ensures
        0 <= note.index() < 12,
        Note::at(note.index()) == note,
        0 <= i < 12 ==> Note::at(i).index() == i,
{
}

/// A semitone distance from unison up to the octave.
#[derive(Copy, Clone, Debug, PartialEq, Eq, Structural)]
pub enum Interval {
    Unison,
    MinorSecond,
    MajorSecond,
    MinorThird,
    MajorThird,
    PerfectFourth,
    Tritone,
    PerfectFifth,
    MinorSixth,
    MajorSixth,
    MinorSeventh,
    MajorSeventh,
    Octave,
}

impl Interval {
    /// The size of the interval in semitones, from 0 to 12.
    pub open spec fn semitones(self) -> int {
        match self {
            Interval::Unison => 0,
            Interval::MinorSecond => 1,
            Interval::MajorSecond => 2,
            Interval::MinorThird => 3,
            Interval::MajorThird => 4,
            Interval::PerfectFourth => 5,
            Interval::Tritone => 6,
            Interval::PerfectFifth => 7,
            Interval::MinorSixth => 8,
            Interval::MajorSixth => 9,
            Interval::MinorSeventh => 10,
            Interval::MajorSeventh => 11,
            Interval::Octave => 12,
        }
    }

    /// The interval of `n` semitones, for `n` from 0 to 12.
    pub open spec fn of(n: int) -> Interval
        recommends
            0 <= n <= 12,
    {
        if n == 0 {
            Interval::Unison
        } else if n == 1 {
            Interval::MinorSecond
        } else if n == 2 {
            Interval::MajorSecond
        } else if n == 3 {
            Interval::MinorThird
        } else if n == 4 {
            Interval::MajorThird
        } else if n == 5 {
            Interval::PerfectFourth
        } else if n == 6 {
            Interval::Tritone
        } else if n == 7 {
            Interval::PerfectFifth
        } else if n == 8 {
            Interval::MinorSixth
        } else if n == 9 {
            Interval::MajorSixth
        } else if n == 10 {
            Interval::MinorSeventh
        } else if n == 11 {
            Interval::MajorSeventh
        } else {
            Interval::Octave
        }
    }

    /// Returns the size of the interval in semitones.
    pub fn as_u8(&self) -> (v: u8)
        ensures
            v as int == self.semitones(),
            v <= 12,
    {
        match self {
            Interval::Unison => 0,
            Interval::MinorSecond => 1,
            Interval::MajorSecond => 2,
            Interval::MinorThird => 3,
            Interval::MajorThird => 4,
            Interval::PerfectFourth => 5,
            Interval::Tritone => 6,
            Interval::PerfectFifth => 7,
            Interval::MinorSixth => 8,
            Interval::MajorSixth => 9,
            Interval::MinorSeventh => 10,
            Interval::MajorSeventh => 11,
            Interval::Octave => 12,
        }
    }

    /// Returns the interval of `val` semitones.
    pub fn from_u8(val: u8) -> (interval: Interval)
        requires
            val <= 12,
        ensures
            interval == Interval::of(val as int),
            interval.semitones() == val,
    {
        match val {
            0 => Interval::Unison,
            1 => Interval::MinorSecond,
            2 => Interval::MajorSecond,
            3 => Interval::MinorThird,
            4 => Interval::MajorThird,
            5 => Interval::PerfectFourth,
            6 => Interval::Tritone,
            7 => Interval::PerfectFifth,
            8 => Interval::MinorSixth,
            9 => Interval::MajorSixth,
            10 => Interval::MinorSeventh,
            11 => Interval::MajorSeventh,
            12 => Interval::Octave,
            _ => unreached(),
        }
    }
}

/// The note that lies `interval` above `root`, going round the circle.
pub open spec fn spec_transpose(root: Note, interval: Interval) -> Note {
    Note::at((root.index() + interval.semitones()) % 12)
}

/// Transposes a root note by an interval. Every pair has a result.
#[verifier::when_used_as_spec(spec_transpose)]
pub fn transpose(root: Note, interval: Interval) -> (note: Note)
    ensures
        note == spec_transpose(root, interval),
        note.index() == (root.index() + interval.semitones()) % 12,
{
    let root_val: u8 = root.as_u8();
    let interval_val: u8 = interval.as_u8();
    let new_val: u8 = (root_val + interval_val) % 12;
    Note::from_u8(new_val)
}

/// The number of semitones from `from` up to `to`, going round the circle
/// upwards only: a value from 0 to 11.
pub open spec fn steps_up(from: Note, to: Note) -> int {
    (to.index() + 12 - from.index()) % 12
}

/// The shorter way round the circle between two notes, in semitones.
pub open spec fn spec_semitone_distance(a: Note, b: Note) -> int {
    let apart = if a.index() >= b.index() {
        a.index() - b.index()
    } else {
        b.index() - a.index()
    };
    if apart <= 12 - apart {
        apart
    } else {
        12 - apart
    }
}

/// Calculates the shortest distance in semitones between two notes.
pub fn semitone_distance(note1: Note, note2: Note) -> (distance: u8)
    ensures
        distance as int == spec_semitone_distance(note1, note2),
        distance <= 6,
{
    let val1: u8 = note1.as_u8();
    let val2: u8 = note2.as_u8();
    let diff: u8 = if val1 >= val2 {
        val1 - val2
    } else {
        val2 - val1
    };
    if diff <= 12 - diff {
        diff
    } else {
        12 - diff
    }
}

/// The distance between two notes does not depend on their order, a note is at
/// distance 0 from itself and from no other note, and no two notes are more
/// than 6 semitones apart.
pub proof fn lemma_distance_symmetric_and_bounded(a: Note, b: Note)
    ensures
        spec_semitone_distance(a, b) == spec_semitone_distance(b, a),
        spec_semitone_distance(a, a) == 0,
        0 <= spec_semitone_distance(a, b) <= 6,
        spec_semitone_distance(a, b) == 0 <==> a == b,
{
}

/// Transposing moves a note up by the size of the interval: the steps from the
/// root up to the transposed note are the interval's semitones, an octave
/// counting as none.
pub proof fn lemma_transpose_steps(root: Note, interval: Interval)
    ensures
        steps_up(root, spec_transpose(root, interval)) == interval.semitones() % 12,
{
}

} // verus!
