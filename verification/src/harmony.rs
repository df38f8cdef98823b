//! Diatonic harmonization: the chord that a seven-note scale builds on each of
//! its degrees from its own notes.

use vstd::pervasive::unreached;
use vstd::prelude::*;
use crate::error::Inconsistency;
use crate::formula::{semitones_of, ChordType, ScaleType};
use crate::generate::spec_build_scale;
use crate::pitch::{lemma_note_index_bijection, spec_transpose, steps_up, Interval, Note};

verus! {

/// A single chord in a harmonized scale.
#[derive(Debug, PartialEq, Eq)]
pub struct HarmonizedDegree {
    /// The degree of the scale that the chord stands on, counted from 1.
    pub degree: usize,
    pub root_note: Note,
    pub chord_type: ChordType,
    /// Root, third, fifth and, where sevenths were asked for, seventh.
    pub notes: Vec<Note>,
}

/// What a `HarmonizedDegree` holds, as mathematical values.
pub struct HarmonizedDegreeView {
    pub degree: nat,
    pub root_note: Note,
    pub chord_type: ChordType,
    pub notes: Seq<Note>,
}

impl View for HarmonizedDegree {
    type V = HarmonizedDegreeView;

    open spec fn view(&self) -> HarmonizedDegreeView {
        HarmonizedDegreeView {
            degree: self.degree as nat,
            root_note: self.root_note,
            chord_type: self.chord_type,
            notes: self.notes@,
        }
    }
}

impl HarmonizedDegreeView {
    /// Whether the degree is one that harmonization gives: numbered from 1 to
    /// 7, with three or four notes of which the first is the root, and of the
    /// quality that the catalog knows for the distances of the other notes
    /// from the root.
    pub open spec fn well_formed(self) -> bool {
        &&& 1 <= self.degree <= 7
        &&& self.notes.len() == 3 || self.notes.len() == 4
        &&& self.notes[0] == self.root_note
        &&& ChordType::classify(
            steps_up(self.root_note, self.notes[1]),
            steps_up(self.root_note, self.notes[2]),
            if self.notes.len() == 4 {
                Some(steps_up(self.root_note, self.notes[3]))
            } else {
                None
            },
        ) == Some(self.chord_type)
    }
}

/// The views of a sequence of harmonized degrees, in order.
pub open spec fn degree_views(degrees: Seq<HarmonizedDegree>) -> Seq<HarmonizedDegreeView> {
    Seq::new(degrees.len(), |i: int| degrees[i]@)
}

/// The note of a seven-note scale that lies `above` scale steps over the
/// note at position `i`, going round the scale.
pub open spec fn scale_step(scale: Seq<Note>, i: int, above: int) -> Note {
    scale[(i + above) % 7]
}

/// The notes that the scale stacks on its position `i` (from 0): the note
/// there, its third and its fifth within the scale and, if asked for, its
/// seventh.
pub open spec fn degree_notes(scale: Seq<Note>, i: int, sevenths: bool) -> Seq<Note> {
    if sevenths {
        seq![scale[i], scale_step(scale, i, 2), scale_step(scale, i, 4), scale_step(scale, i, 6)]
    } else {
        seq![scale[i], scale_step(scale, i, 2), scale_step(scale, i, 4)]
    }
}

/// How far the third, the fifth and, if asked for, the seventh at position
/// `i` lie above the root of that position, in semitones going upwards.
pub open spec fn degree_signature(scale: Seq<Note>, i: int, sevenths: bool) -> (
    int,
    int,
    Option<int>,
) {
    (
        steps_up(scale[i], scale_step(scale, i, 2)),
        steps_up(scale[i], scale_step(scale, i, 4)),
        if sevenths {
            Some(steps_up(scale[i], scale_step(scale, i, 6)))
        } else {
            None
        },
    )
}

/// The quality of the chord at position `i`, where the catalog knows it.
pub open spec fn degree_quality(scale: Seq<Note>, i: int, sevenths: bool) -> Option<ChordType> {
    let signature = degree_signature(scale, i, sevenths);
    ChordType::classify(signature.0, signature.1, signature.2)
}

/// Whether each of the seven positions of the scale carries a chord of the
/// catalog.
pub open spec fn harmonizable(scale: Seq<Note>, sevenths: bool) -> bool {
    forall|i: int| 0 <= i < 7 ==> (#[trigger] degree_quality(scale, i, sevenths)) is Some
}

/// The harmonized degree at position `i` of a scale whose chord there is
/// known.
pub open spec fn spec_degree(scale: Seq<Note>, i: int, sevenths: bool) -> HarmonizedDegreeView {
    HarmonizedDegreeView {
        degree: (i + 1) as nat,
        root_note: scale[i],
        chord_type: degree_quality(scale, i, sevenths)->0,
        notes: degree_notes(scale, i, sevenths),
    }
}

/// The harmonization of a scale: its seven degrees in order, or nothing where
/// the scale has not exactly seven notes.
pub open spec fn spec_harmonize_scale(scale: Seq<Note>, sevenths: bool) -> Seq<
    HarmonizedDegreeView,
> {
    if scale.len() == 7 {
        Seq::new(7, |i: int| spec_degree(scale, i, sevenths))
    } else {
        Seq::empty()
    }
}

/// The degree at a position whose chord the catalog knows is well formed.
pub proof fn lemma_degree_is_well_formed(scale: Seq<Note>, i: int, sevenths: bool)
    requires
        0 <= i < 7,
        degree_quality(scale, i, sevenths) is Some,
    ensures
        spec_degree(scale, i, sevenths).well_formed(),
{
}

/// Whether position `i` is the first of a seven-note scale whose chord the
/// catalog does not know.
pub open spec fn is_first_unknown(scale: Seq<Note>, i: int, sevenths: bool) -> bool {
    &&& 0 <= i < 7
    &&& degree_quality(scale, i, sevenths) is None
    &&& forall|j: int| 0 <= j < i ==> (#[trigger] degree_quality(scale, j, sevenths)) is Some
}

/// What is reported of position `i`, whose chord the catalog does not know:
/// the distances that were found there.
pub open spec fn unclassifiable_at(scale: Seq<Note>, i: int, sevenths: bool) -> Inconsistency {
    Inconsistency::UnclassifiableChord {
        third: degree_signature(scale, i, sevenths).0 as u8,
        fifth: degree_signature(scale, i, sevenths).1 as u8,
        seventh: match degree_signature(scale, i, sevenths).2 {
            Some(s) => Some(s as u8),
            None => None,
        },
    }
}

/// Counts the semitones from one note up to another.
fn distance_up(from: Note, to: Note) -> (steps: u8)
    ensures
        steps as int == steps_up(from, to),
        steps < 12,
{
    (to.as_u8() + 12 - from.as_u8()) % 12
}

/// Builds the diatonic chords of a scale: triads, or seventh chords if
/// `build_sevenths` is set. A scale that has not exactly seven notes gives no
/// degrees. Of a seven-note scale every position is harmonized in order; the
/// first position whose chord the catalog does not know ends the work, and its
/// distances are reported.
pub fn try_harmonize_scale(scale: &[Note], build_sevenths: bool) -> (r: Result<
    Vec<HarmonizedDegree>,
    Inconsistency,
>)
    ensures
        scale@.len() != 7 || harmonizable(scale@, build_sevenths) ==> r is Ok && degree_views(
            r->Ok_0@,
        ) == spec_harmonize_scale(scale@, build_sevenths),
        r is Ok ==> forall|i: int|
            0 <= i < r->Ok_0@.len() ==> (#[trigger] r->Ok_0@[i])@.well_formed(),
        scale@.len() == 7 && !harmonizable(scale@, build_sevenths) ==> r is Err && exists|i: int|
            #[trigger] is_first_unknown(scale@, i, build_sevenths) && r->Err_0 == unclassifiable_at(
                scale@,
                i,
                build_sevenths,
            ),
{
    let mut harmonized_scale: Vec<HarmonizedDegree> = Vec::new();
    if scale.len() != 7 {
        assert(degree_views(harmonized_scale@) =~= spec_harmonize_scale(scale@, build_sevenths));
        return Ok(harmonized_scale);
    }
    let mut i: usize = 0;
    while i < 7
        invariant
            i <= 7,
            scale@.len() == 7,
            harmonized_scale@.len() == i,
            forall|j: int|
                0 <= j < i ==> (#[trigger] degree_quality(scale@, j, build_sevenths)) is Some,
            forall|j: int|
                0 <= j < i ==> (#[trigger] harmonized_scale@[j])@ == spec_degree(
                    scale@,
                    j,
                    build_sevenths,
                ),
        decreases 7 - i,
    {
        let root: Note = scale[i];
        let third: Note = scale[(i + 2) % 7];
        let fifth: Note = scale[(i + 4) % 7];
        let third_interval: u8 = distance_up(root, third);
        let fifth_interval: u8 = distance_up(root, fifth);

        let mut notes: Vec<Note> = Vec::new();
        notes.push(root);
        notes.push(third);
        notes.push(fifth);
        let mut seventh_interval: Option<u8> = None;
        if build_sevenths {
            let seventh: Note = scale[(i + 6) % 7];
            seventh_interval = Some(distance_up(root, seventh));
            notes.push(seventh);
        }
        assert(notes@ =~= degree_notes(scale@, i as int, build_sevenths));
        assert(semitones_of(seventh_interval) == degree_signature(
            scale@,
            i as int,
            build_sevenths,
        ).2);

        match ChordType::try_from_intervals(third_interval, fifth_interval, seventh_interval) {
            Ok(chord_type) => {
                harmonized_scale.push(
                    HarmonizedDegree { degree: i + 1, root_note: root, chord_type, notes },
                );
            },
            Err(unknown) => {
                assert(is_first_unknown(scale@, i as int, build_sevenths));
                assert(unknown == unclassifiable_at(scale@, i as int, build_sevenths));
                return Err(unknown);
            },
        }
        i += 1;
    }
    assert(degree_views(harmonized_scale@) =~= spec_harmonize_scale(scale@, build_sevenths));
    assert forall|j: int| 0 <= j < 7 implies (#[trigger] harmonized_scale@[j])@.well_formed() by {
        lemma_degree_is_well_formed(scale@, j, build_sevenths);
    }
    Ok(harmonized_scale)
}

/// Builds the diatonic chords of a scale: triads, or seventh chords if
/// `build_sevenths` is set. A scale that has not exactly seven notes gives no
/// degrees. Each position of a seven-note scale must carry a chord of the
/// catalog, as every seven-note scale of the catalog does on every root.
pub fn harmonize_scale(scale: &[Note], build_sevenths: bool) -> (degrees: Vec<HarmonizedDegree>)
    requires
        scale@.len() == 7 ==> harmonizable(scale@, build_sevenths),
    ensures
        degree_views(degrees@) == spec_harmonize_scale(scale@, build_sevenths),
        degrees@.len() == (if scale@.len() == 7 {
            7nat
        } else {
            0nat
        }),
        forall|i: int| 0 <= i < degrees@.len() ==> (#[trigger] degrees@[i])@.well_formed(),
{
    match try_harmonize_scale(scale, build_sevenths) {
        Ok(degrees) => {
            assert(degree_views(degrees@).len() == degrees@.len());
            degrees
        },
        Err(_) => unreached(),
    }
}

/// The qualities of the seven diatonic chords of a seven-note scale of the
/// catalog, from the first degree to the seventh.
pub open spec fn diatonic_qualities(scale_type: ScaleType, sevenths: bool) -> Seq<ChordType> {
    match (scale_type, sevenths) {
        (ScaleType::Major, false) => seq![
            ChordType::Major,
            ChordType::Minor,
            ChordType::Minor,
            ChordType::Major,
            ChordType::Major,
            ChordType::Minor,
            ChordType::Diminished,
        ],
        (ScaleType::Major, true) => seq![
            ChordType::Major7,
            ChordType::Minor7,
            ChordType::Minor7,
            ChordType::Major7,
            ChordType::Dominant7,
            ChordType::Minor7,
            ChordType::Minor7b5,
        ],
        (ScaleType::MinorNatural, false) => seq![
            ChordType::Minor,
            ChordType::Diminished,
            ChordType::Major,
            ChordType::Minor,
            ChordType::Minor,
            ChordType::Major,
            ChordType::Major,
        ],
        (ScaleType::MinorNatural, true) => seq![
            ChordType::Minor7,
            ChordType::Minor7b5,
            ChordType::Major7,
            ChordType::Minor7,
            ChordType::Minor7,
            ChordType::Major7,
            ChordType::Dominant7,
        ],
        (ScaleType::MinorHarmonic, false) => seq![
            ChordType::Minor,
            ChordType::Diminished,
            ChordType::Augmented,
            ChordType::Minor,
            ChordType::Major,
            ChordType::Major,
            ChordType::Diminished,
        ],
        (ScaleType::MinorHarmonic, true) => seq![
            ChordType::MinorMajor7,
            ChordType::Minor7b5,
            ChordType::AugmentedMajor7,
            ChordType::Minor7,
            ChordType::Dominant7,
            ChordType::Major7,
            ChordType::Diminished7,
        ],
        _ => Seq::empty(),
    }
}

/// On every root, each seven-note scale of the catalog can be harmonized, in
/// triads and in seventh chords, and the qualities of its seven chords are
/// the same whatever the root.
pub proof fn lemma_catalog_scales_harmonize(root: Note, scale_type: ScaleType, sevenths: bool)
    requires
        scale_type.is_heptatonic(),
    ensures
        spec_build_scale(root, scale_type).len() == 7,
        harmonizable(spec_build_scale(root, scale_type), sevenths),
        forall|i: int|
            0 <= i < 7 ==> #[trigger] degree_quality(
                spec_build_scale(root, scale_type),
                i,
                sevenths,
            ) == Some(diatonic_qualities(scale_type, sevenths)[i]),
{
    let scale = spec_build_scale(root, scale_type);
    assert forall|i: int| 0 <= i < 7 implies #[trigger] degree_quality(scale, i, sevenths) == Some(
        diatonic_qualities(scale_type, sevenths)[i],
    ) by {
        lemma_degree_quality(root, scale_type, sevenths, i);
    }
}

/// The semitones from interval `a` up to interval `b` of one formula, going
/// round the octave.
spec fn span(a: Interval, b: Interval) -> int {
    (b.semitones() + 12 - a.semitones()) % 12
}

/// The distances that the formula itself gives at position `i`, before any
/// root is chosen.
spec fn formula_signature(formula: Seq<Interval>, i: int, sevenths: bool) -> (
    int,
    int,
    Option<int>,
) {
    (
        span(formula[i], formula[(i + 2) % 7]),
        span(formula[i], formula[(i + 4) % 7]),
        if sevenths {
            Some(span(formula[i], formula[(i + 6) % 7]))
        } else {
            None
        },
    )
}

/// Two notes transposed from one root are as far apart as the intervals that
/// gave them.
proof fn lemma_transposed_span(root: Note, a: Interval, b: Interval)
    ensures
        steps_up(spec_transpose(root, a), spec_transpose(root, b)) == span(a, b),
{
    lemma_note_index_bijection(root, (root.index() + a.semitones()) % 12);
    lemma_note_index_bijection(root, (root.index() + b.semitones()) % 12);
}

/// The distances at a position of a scale of the catalog are those of its
/// formula, whatever the root.
proof fn lemma_degree_signature(root: Note, scale_type: ScaleType, sevenths: bool, i: int)
    requires
        scale_type.is_heptatonic(),
        0 <= i < 7,
    ensures
        degree_signature(spec_build_scale(root, scale_type), i, sevenths) == formula_signature(
            scale_type.formula(),
            i,
            sevenths,
        ),
{
    let formula = scale_type.formula();
    assert(formula.len() == 7);
    lemma_transposed_span(root, formula[i], formula[(i + 2) % 7]);
    lemma_transposed_span(root, formula[i], formula[(i + 4) % 7]);
    lemma_transposed_span(root, formula[i], formula[(i + 6) % 7]);
}

/// The distances that a seven-note formula gives at each position are those
/// of the quality listed for it.
proof fn lemma_formula_quality(scale_type: ScaleType, sevenths: bool, i: int)
    requires
        scale_type.is_heptatonic(),
        0 <= i < 7,
    ensures
        ({
            let found = formula_signature(scale_type.formula(), i, sevenths);
            ChordType::classify(found.0, found.1, found.2) == Some(
                diatonic_qualities(scale_type, sevenths)[i],
            )
        }),
{
    let formula = scale_type.formula();
    let third = formula[(i + 2) % 7];
    let fifth = formula[(i + 4) % 7];
    let seventh = formula[(i + 6) % 7];
    if i == 0 {
        assert(third == formula[2] && fifth == formula[4] && seventh == formula[6]);
    } else if i == 1 {
        assert(third == formula[3] && fifth == formula[5] && seventh == formula[0]);
    } else if i == 2 {
        assert(third == formula[4] && fifth == formula[6] && seventh == formula[1]);
    } else if i == 3 {
        assert(third == formula[5] && fifth == formula[0] && seventh == formula[2]);
    } else if i == 4 {
        assert(third == formula[6] && fifth == formula[1] && seventh == formula[3]);
    } else if i == 5 {
        assert(third == formula[0] && fifth == formula[2] && seventh == formula[4]);
    } else {
        assert(third == formula[1] && fifth == formula[3] && seventh == formula[5]);
    }
}

/// The chord at each position of a seven-note scale of the catalog has the
/// quality listed for it.
proof fn lemma_degree_quality(root: Note, scale_type: ScaleType, sevenths: bool, i: int)
    requires
        scale_type.is_heptatonic(),
        0 <= i < 7,
    ensures
        degree_quality(spec_build_scale(root, scale_type), i, sevenths) == Some(
            diatonic_qualities(scale_type, sevenths)[i],
        ),
{
    lemma_degree_signature(root, scale_type, sevenths, i);
    lemma_formula_quality(scale_type, sevenths, i);
}

} // verus!
