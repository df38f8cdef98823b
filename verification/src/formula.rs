//! The catalog of scale and chord formulas, and the classifier that finds a
//! chord's quality from its intervals.

use vstd::pervasive::unreached;
use vstd::prelude::*;
use crate::error::Inconsistency;
use crate::pitch::Interval;

verus! {

/// The scales of the catalog.
#[derive(Copy, Clone, Debug, PartialEq, Eq, Structural)]
pub enum ScaleType {
    Major,
    MinorNatural,
    MinorHarmonic,
    PentatonicMajor,
    PentatonicMinor,
}

impl ScaleType {
    /// The scale's formula: the intervals of its degrees from the root, in
    /// ascending order, the first being the unison.
    pub open spec fn formula(self) -> Seq<Interval> {
        match self {
            ScaleType::Major => seq![
                Interval::Unison,
                Interval::MajorSecond,
                Interval::MajorThird,
                Interval::PerfectFourth,
                Interval::PerfectFifth,
                Interval::MajorSixth,
                Interval::MajorSeventh,
            ],
            ScaleType::MinorNatural => seq![
                Interval::Unison,
                Interval::MajorSecond,
                Interval::MinorThird,
                Interval::PerfectFourth,
                Interval::PerfectFifth,
                Interval::MinorSixth,
                Interval::MinorSeventh,
            ],
            ScaleType::MinorHarmonic => seq![
                Interval::Unison,
                Interval::MajorSecond,
                Interval::MinorThird,
                Interval::PerfectFourth,
                Interval::PerfectFifth,
                Interval::MinorSixth,
                Interval::MajorSeventh,
            ],
            ScaleType::PentatonicMajor => seq![
                Interval::Unison,
                Interval::MajorSecond,
                Interval::MajorThird,
                Interval::PerfectFifth,
                Interval::MajorSixth,
            ],
            ScaleType::PentatonicMinor => seq![
                Interval::Unison,
                Interval::MinorThird,
                Interval::PerfectFourth,
                Interval::PerfectFifth,
                Interval::MinorSeventh,
            ],
        }
    }

    /// Whether the scale has seven degrees, as diatonic harmonization needs.
    pub open spec fn is_heptatonic(self) -> bool {
        self == ScaleType::Major || self == ScaleType::MinorNatural || self
            == ScaleType::MinorHarmonic
    }

    /// Returns the formula (list of intervals from the root) of the scale.
    pub fn intervals(&self) -> (formula: &'static [Interval])
        ensures
            formula@ == self.formula(),
    {
        match self {
            ScaleType::Major => &[
                Interval::Unison,
                Interval::MajorSecond,
                Interval::MajorThird,
                Interval::PerfectFourth,
                Interval::PerfectFifth,
                Interval::MajorSixth,
                Interval::MajorSeventh,
            ],
            ScaleType::MinorNatural => &[
                Interval::Unison,
                Interval::MajorSecond,
                Interval::MinorThird,
                Interval::PerfectFourth,
                Interval::PerfectFifth,
                Interval::MinorSixth,
                Interval::MinorSeventh,
            ],
            ScaleType::MinorHarmonic => &[
                Interval::Unison,
                Interval::MajorSecond,
                Interval::MinorThird,
                Interval::PerfectFourth,
                Interval::PerfectFifth,
                Interval::MinorSixth,
                Interval::MajorSeventh,
            ],
            ScaleType::PentatonicMajor => &[
                Interval::Unison,
                Interval::MajorSecond,
                Interval::MajorThird,
                Interval::PerfectFifth,
                Interval::MajorSixth,
            ],
            ScaleType::PentatonicMinor => &[
                Interval::Unison,
                Interval::MinorThird,
                Interval::PerfectFourth,
                Interval::PerfectFifth,
                Interval::MinorSeventh,
            ],
        }
    }
}

/// Every scale formula starts at the unison, rises strictly and stays below
/// the octave; it has seven degrees or, for the pentatonic scales, five.
pub proof fn lemma_scale_formula_shape(scale_type: ScaleType)
    ensures
        scale_type.formula().len() == (if scale_type.is_heptatonic() {
            7nat
        } else {
            5nat
        }),
        scale_type.formula()[0] == Interval::Unison,
        forall|i: int, j: int|
            #![trigger scale_type.formula()[i], scale_type.formula()[j]]
            0 <= i < j < scale_type.formula().len() ==> scale_type.formula()[i].semitones()
                < scale_type.formula()[j].semitones() < 12,
{
}

/// The chord qualities of the catalog: four triads and seven seventh chords.
#[derive(Copy, Clone, Debug, PartialEq, Eq, Structural)]
pub enum ChordType {
    Major,
    Minor,
    Diminished,
    Augmented,
    Major7,
    Minor7,
    Dominant7,
    /// Half-diminished.
    Minor7b5,
    /// Fully diminished.
    Diminished7,
    MinorMajor7,
    AugmentedMajor7,
}

impl ChordType {
    /// The chord's formula: root, third, fifth and, for a seventh chord, the
    /// seventh, each as its interval from the root.
    pub open spec fn formula(self) -> Seq<Interval> {
        match self {
            ChordType::Major => seq![
                Interval::Unison,
                Interval::MajorThird,
                Interval::PerfectFifth,
            ],
            ChordType::Minor => seq![
                Interval::Unison,
                Interval::MinorThird,
                Interval::PerfectFifth,
            ],
            ChordType::Diminished => seq![
                Interval::Unison,
                Interval::MinorThird,
                Interval::Tritone,
            ],
            ChordType::Augmented => seq![
                Interval::Unison,
                Interval::MajorThird,
                Interval::MinorSixth,
            ],
            ChordType::Major7 => seq![
                Interval::Unison,
                Interval::MajorThird,
                Interval::PerfectFifth,
                Interval::MajorSeventh,
            ],
            ChordType::Minor7 => seq![
                Interval::Unison,
                Interval::MinorThird,
                Interval::PerfectFifth,
                Interval::MinorSeventh,
            ],
            ChordType::Dominant7 => seq![
                Interval::Unison,
                Interval::MajorThird,
                Interval::PerfectFifth,
                Interval::MinorSeventh,
            ],
            ChordType::Minor7b5 => seq![
                Interval::Unison,
                Interval::MinorThird,
                Interval::Tritone,
                Interval::MinorSeventh,
            ],
            ChordType::Diminished7 => seq![
                Interval::Unison,
                Interval::MinorThird,
                Interval::Tritone,
                Interval::MajorSixth,
            ],
            ChordType::MinorMajor7 => seq![
                Interval::Unison,
                Interval::MinorThird,
                Interval::PerfectFifth,
                Interval::MajorSeventh,
            ],
            ChordType::AugmentedMajor7 => seq![
                Interval::Unison,
                Interval::MajorThird,
                Interval::MinorSixth,
                Interval::MajorSeventh,
            ],
        }
    }

    /// Whether the chord has a seventh above its triad.
    pub open spec fn has_seventh(self) -> bool {
        self.formula().len() == 4
    }

    /// The semitones of the formula's third, fifth and, where it has one,
    /// seventh.
    pub open spec fn signature(self) -> (int, int, Option<int>) {
        (
            self.formula()[1].semitones(),
            self.formula()[2].semitones(),
            if self.has_seventh() {
                Some(self.formula()[3].semitones())
            } else {
                None
            },
        )
    }

    /// The quality of the chord whose third, fifth and optional seventh lie
    /// that many semitones above its root, where the catalog knows one.
    pub open spec fn classify(third: int, fifth: int, seventh: Option<int>) -> Option<ChordType> {
        match seventh {
            Some(s) => {
                if third == 4 && fifth == 7 && s == 11 {
                    Some(ChordType::Major7)
                } else if third == 3 && fifth == 7 && s == 10 {
                    Some(ChordType::Minor7)
                } else if third == 4 && fifth == 7 && s == 10 {
                    Some(ChordType::Dominant7)
                } else if third == 3 && fifth == 6 && s == 10 {
                    Some(ChordType::Minor7b5)
                } else if third == 3 && fifth == 6 && s == 9 {
                    Some(ChordType::Diminished7)
                } else if third == 3 && fifth == 7 && s == 11 {
                    Some(ChordType::MinorMajor7)
                } else if third == 4 && fifth == 8 && s == 11 {
                    Some(ChordType::AugmentedMajor7)
                } else {
                    None
                }
            },
            None => {
                if third == 4 && fifth == 7 {
                    Some(ChordType::Major)
                } else if third == 3 && fifth == 7 {
                    Some(ChordType::Minor)
                } else if third == 3 && fifth == 6 {
                    Some(ChordType::Diminished)
                } else if third == 4 && fifth == 8 {
                    Some(ChordType::Augmented)
                } else {
                    None
                }
            },
        }
    }

    /// Returns the formula (list of intervals from the root) of the chord.
    pub fn intervals(&self) -> (formula: &'static [Interval])
        ensures
            formula@ == self.formula(),
    {
        match self {
            ChordType::Major => &[Interval::Unison, Interval::MajorThird, Interval::PerfectFifth],
            ChordType::Minor => &[Interval::Unison, Interval::MinorThird, Interval::PerfectFifth],
            ChordType::Diminished => &[Interval::Unison, Interval::MinorThird, Interval::Tritone],
            ChordType::Augmented => &[Interval::Unison, Interval::MajorThird, Interval::MinorSixth],
            ChordType::Major7 => &[
                Interval::Unison,
                Interval::MajorThird,
                Interval::PerfectFifth,
                Interval::MajorSeventh,
            ],
            ChordType::Minor7 => &[
                Interval::Unison,
                Interval::MinorThird,
                Interval::PerfectFifth,
                Interval::MinorSeventh,
            ],
            ChordType::Dominant7 => &[
                Interval::Unison,
                Interval::MajorThird,
                Interval::PerfectFifth,
                Interval::MinorSeventh,
            ],
            ChordType::Minor7b5 => &[
                Interval::Unison,
                Interval::MinorThird,
                Interval::Tritone,
                Interval::MinorSeventh,
            ],
            ChordType::Diminished7 => &[
                Interval::Unison,
                Interval::MinorThird,
                Interval::Tritone,
                Interval::MajorSixth,
            ],
            ChordType::MinorMajor7 => &[
                Interval::Unison,
                Interval::MinorThird,
                Interval::PerfectFifth,
                Interval::MajorSeventh,
            ],
            ChordType::AugmentedMajor7 => &[
                Interval::Unison,
                Interval::MajorThird,
                Interval::MinorSixth,
                Interval::MajorSeventh,
            ],
        }
    }

    /// Determines a chord type from the semitone distances of its third, fifth
    /// and optional seventh from the root, or reports the three distances when
    /// no chord of the catalog has them.
    pub fn try_from_intervals(third: u8, fifth: u8, seventh: Option<u8>) -> (r: Result<
        ChordType,
        Inconsistency,
    >)
        ensures
            match ChordType::classify(third as int, fifth as int, semitones_of(seventh)) {
                Some(chord_type) => r == Ok::<ChordType, Inconsistency>(chord_type),
                None => r == Err::<ChordType, Inconsistency>(
                    Inconsistency::UnclassifiableChord { third, fifth, seventh },
                ),
            },
    {
        match (third, fifth, seventh) {
            (4, 7, Some(11)) => Ok(ChordType::Major7),
            (3, 7, Some(10)) => Ok(ChordType::Minor7),
            (4, 7, Some(10)) => Ok(ChordType::Dominant7),
            (3, 6, Some(10)) => Ok(ChordType::Minor7b5),
            (3, 6, Some(9)) => Ok(ChordType::Diminished7),
            (3, 7, Some(11)) => Ok(ChordType::MinorMajor7),
            (4, 8, Some(11)) => Ok(ChordType::AugmentedMajor7),
            (4, 7, None) => Ok(ChordType::Major),
            (3, 7, None) => Ok(ChordType::Minor),
            (3, 6, None) => Ok(ChordType::Diminished),
            (4, 8, None) => Ok(ChordType::Augmented),
            _ => Err(Inconsistency::UnclassifiableChord { third, fifth, seventh }),
        }
    }

    /// Determines a chord type from the semitone distances of its third, fifth
    /// and optional seventh from the root. The three must be distances that a
    /// chord of the catalog has.
    pub fn from_intervals(third: u8, fifth: u8, seventh: Option<u8>) -> (chord_type: ChordType)
        requires
            ChordType::classify(third as int, fifth as int, semitones_of(seventh)) is Some,
        ensures
            ChordType::classify(third as int, fifth as int, semitones_of(seventh)) == Some(
                chord_type,
            ),
    {
        match ChordType::try_from_intervals(third, fifth, seventh) {
            Ok(chord_type) => chord_type,
            Err(_) => unreached(),
        }
    }
}

/// An optional distance in semitones as an optional integer.
pub open spec fn semitones_of(distance: Option<u8>) -> Option<int> {
    match distance {
        Some(d) => Some(d as int),
        None => None,
    }
}

/// Every chord formula starts at the unison, has three or four intervals, and
/// no two chord types share their third, fifth and seventh.
pub proof fn lemma_chord_signatures_distinct(a: ChordType, b: ChordType)
    ensures
        a.formula()[0] == Interval::Unison,
        a.formula().len() == 3 || a.formula().len() == 4,
        a.signature() == b.signature() ==> a == b,
{
}

/// The classifier reads the formulas backwards: it answers with a chord type
/// exactly on that type's own third, fifth and seventh.
pub proof fn lemma_classifier_inverts_formulas(
    chord_type: ChordType,
    third: int,
    fifth: int,
    seventh: Option<int>,
)
    ensures
        ChordType::classify(third, fifth, seventh) == Some(chord_type) <==> chord_type.signature()
            == (third, fifth, seventh),
        ChordType::classify(
            chord_type.signature().0,
            chord_type.signature().1,
            chord_type.signature().2,
        ) == Some(chord_type),
{
}

/// The symbol that is written after a chord's root to name its quality.
pub open spec fn quality_symbol(chord_type: ChordType) -> Seq<char> {
    match chord_type {
        ChordType::Major => ""@,
        ChordType::Minor => "m"@,
        ChordType::Diminished => "°"@,
        ChordType::Augmented => "+"@,
        ChordType::Major7 => "maj7"@,
        ChordType::Minor7 => "m7"@,
        ChordType::Dominant7 => "7"@,
        ChordType::Minor7b5 => "m7b5"@,
        ChordType::Diminished7 => "°7"@,
        ChordType::MinorMajor7 => "m(maj7)"@,
        ChordType::AugmentedMajor7 => "aug(maj7)"@,
    }
}

/// Returns the symbol that is written after a chord's root to name its
/// quality.
pub fn get_chord_quality_symbol(chord_type: ChordType) -> (symbol: &'static str)
    ensures
        symbol@ == quality_symbol(chord_type),
{
    match chord_type {
        ChordType::Major => "",
        ChordType::Minor => "m",
        ChordType::Diminished => "°",
        ChordType::Augmented => "+",
        ChordType::Major7 => "maj7",
        ChordType::Minor7 => "m7",
        ChordType::Dominant7 => "7",
        ChordType::Minor7b5 => "m7b5",
        ChordType::Diminished7 => "°7",
        ChordType::MinorMajor7 => "m(maj7)",
        ChordType::AugmentedMajor7 => "aug(maj7)",
    }
}

} // verus!
