//! Chord progressions, and the choice of each chord's inversion by the motion
//! of the bass.

use vstd::prelude::*;
use crate::error::ParseErrorView;
use crate::formula::{lemma_chord_signatures_distinct, ChordType};
use crate::generate::{
    build_chord, get_inversions, lemma_rotate_left_index, rotate_left, spec_build_chord,
};
use crate::parser::{
    degree_interval, is_numeral_letter, lemma_numeral_degree_by_letters, lemma_numeral_len_is,
    numeral_degree, parsed_views, spec_parse_roman_chord, spec_resolve_suffix, ParsedRomanChord,
    ParsedRomanChordView,
};
use crate::pitch::{
    lemma_note_index_bijection, semitone_distance, spec_semitone_distance, spec_transpose,
    transpose, Interval, Note,
};

verus! {

/// The progressions that have a name.
#[derive(Copy, Clone, Debug, PartialEq, Eq, Structural)]
pub enum HarmonicFormula {
    /// A blues-style block: I, V7, I7, IV.
    Block,
    /// The diatonic circle: I, vi, ii, V7.
    Circle,
    /// The guajira vamp: I, IV, V7.
    Guajira,
    /// A relative-minor block: vi, IV7, ii, III7.
    BloqueRm,
}

/// A single chord within a progression.
#[derive(Debug, PartialEq, Eq)]
pub struct ProgressionChord {
    /// The roman-numeral label of the chord, such as "I" or "V7".
    pub degree: String,
    /// The chord's root, whatever note is in the bass.
    pub root_note: Note,
    pub chord_type: ChordType,
    /// The notes of the chord in the order of the chosen inversion.
    pub notes: Vec<Note>,
}

/// What a `ProgressionChord` holds, as mathematical values.
pub struct ProgressionChordView {
    pub degree: Seq<char>,
    pub root_note: Note,
    pub chord_type: ChordType,
    pub notes: Seq<Note>,
}

impl View for ProgressionChord {
    type V = ProgressionChordView;

    open spec fn view(&self) -> ProgressionChordView {
        ProgressionChordView {
            degree: self.degree@,
            root_note: self.root_note,
            chord_type: self.chord_type,
            notes: self.notes@,
        }
    }
}

impl ProgressionChordView {
    /// Whether the chord is one that a progression holds: its notes are those
    /// of the chord of its type on its root, in the order of one of that
    /// chord's inversions.
    pub open spec fn well_formed(self) -> bool {
        let chord = spec_build_chord(self.root_note, self.chord_type);
        exists|k: int| 0 <= k < chord.len() && self.notes == #[trigger] rotate_left(chord, k)
    }
}

/// The views of a sequence of progression chords, in order.
pub open spec fn progression_views(chords: Seq<ProgressionChord>) -> Seq<ProgressionChordView> {
    Seq::new(chords.len(), |i: int| chords[i]@)
}

/// A chord that is to be voiced: its label, its root and its type.
pub struct ChordSpecView {
    pub degree: Seq<char>,
    pub root_note: Note,
    pub chord_type: ChordType,
}

/// The chords to be voiced that a sequence of label, root and type stands
/// for.
pub open spec fn chord_spec_views(specs: Seq<(String, Note, ChordType)>) -> Seq<ChordSpecView> {
    Seq::new(
        specs.len(),
        |i: int|
            ChordSpecView {
                degree: specs[i].0@,
                root_note: specs[i].1,
                chord_type: specs[i].2,
            },
    )
}

/// The chords to be voiced in the key of `root`: each symbol's interval
/// transposes the key's root to the chord's root.
pub open spec fn place_in_key(root: Note, chords: Seq<ParsedRomanChordView>) -> Seq<
    ChordSpecView,
> {
    Seq::new(
        chords.len(),
        |i: int|
            ChordSpecView {
                degree: chords[i].degree,
                root_note: spec_transpose(root, chords[i].interval_from_root),
                chord_type: chords[i].chord_type,
            },
    )
}

/// What a bass note costs: first its distance from the previous bass, then
/// its distance from the key center.
pub open spec fn bass_cost(bass: Note, previous_bass: Note, key_center: Note) -> (int, int) {
    (spec_semitone_distance(bass, previous_bass), spec_semitone_distance(bass, key_center))
}

/// Whether cost `a` is below cost `b`: the first parts decide, and the second
/// parts where the first are equal.
pub open spec fn cost_below(a: (int, int), b: (int, int)) -> bool {
    a.0 < b.0 || (a.0 == b.0 && a.1 < b.1)
}

/// Whether the inversion at `k` is the one to choose for the chord: its bass,
/// the chord's note at `k`, costs no more than any other, and every inversion
/// before it costs more.
pub open spec fn is_best_inversion(
    chord: Seq<Note>,
    previous_bass: Note,
    key_center: Note,
    k: int,
) -> bool {
    &&& 0 <= k < chord.len()
    &&& forall|j: int|
        0 <= j < chord.len() ==> !cost_below(
            bass_cost(#[trigger] chord[j], previous_bass, key_center),
            bass_cost(chord[k], previous_bass, key_center),
        )
    &&& forall|j: int|
        0 <= j < k ==> cost_below(
            bass_cost(chord[k], previous_bass, key_center),
            bass_cost(#[trigger] chord[j], previous_bass, key_center),
        )
}

/// The inversion to choose for a chord that has a note.
pub open spec fn best_inversion(chord: Seq<Note>, previous_bass: Note, key_center: Note) -> int {
    choose|k: int| is_best_inversion(chord, previous_bass, key_center, k)
}

/// The chord of a progression that comes of voicing `spec` after a chord whose
/// bass was `previous_bass`.
pub open spec fn voice_chord(
    key_center: Note,
    previous_bass: Note,
    spec: ChordSpecView,
) -> ProgressionChordView {
    let chord = spec_build_chord(spec.root_note, spec.chord_type);
    ProgressionChordView {
        degree: spec.degree,
        root_note: spec.root_note,
        chord_type: spec.chord_type,
        notes: rotate_left(chord, best_inversion(chord, previous_bass, key_center)),
    }
}

/// The bass that the next chord is measured against: that of the last chord
/// voiced, or the key center before any chord.
pub open spec fn bass_after(key_center: Note, voiced: Seq<ProgressionChordView>) -> Note {
    if voiced.len() == 0 {
        key_center
    } else {
        voiced.last().notes[0]
    }
}

/// The progression that comes of voicing the chords one after the other, each
/// against the bass of the one before it.
pub open spec fn spec_solve_voice_leading(key_center: Note, specs: Seq<ChordSpecView>) -> Seq<
    ProgressionChordView,
>
    decreases specs.len(),
{
    if specs.len() == 0 {
        Seq::empty()
    } else {
        let before = spec_solve_voice_leading(key_center, specs.drop_last());
        before.push(voice_chord(key_center, bass_after(key_center, before), specs.last()))
    }
}

/// The voiced progression has a chord for each chord given, and each is the
/// given chord voiced against the bass of the chord before it, or against the
/// key center where it is the first.
pub proof fn lemma_progression_step(key_center: Note, specs: Seq<ChordSpecView>, i: int)
    requires
        0 <= i < specs.len(),
    ensures
        spec_solve_voice_leading(key_center, specs).len() == specs.len(),
        spec_solve_voice_leading(key_center, specs)[i] == voice_chord(
            key_center,
            if i == 0 {
                key_center
            } else {
                spec_solve_voice_leading(key_center, specs)[i - 1].notes[0]
            },
            specs[i],
        ),
    decreases specs.len(),
{
    let earlier = specs.drop_last();
    let before = spec_solve_voice_leading(key_center, earlier);
    lemma_progression_len(key_center, earlier);
    if i < earlier.len() {
        lemma_progression_step(key_center, earlier, i);
    }
}

/// Voicing keeps the number of chords.
proof fn lemma_progression_len(key_center: Note, specs: Seq<ChordSpecView>)
    ensures
        spec_solve_voice_leading(key_center, specs).len() == specs.len(),
    decreases specs.len(),
{
    if specs.len() > 0 {
        lemma_progression_len(key_center, specs.drop_last());
    }
}

/// A voiced chord keeps the label, the root and the type it was given. Its
/// notes are those of the chord in root position, turned so that the bass is
/// the note whose distance from the previous bass is least and, among such
/// notes, whose distance from the key center is least; the first of them in
/// the chord's order where two are alike in both.
pub proof fn lemma_voiced_chord(key_center: Note, previous_bass: Note, spec: ChordSpecView)
    ensures
        ({
            let chord = spec_build_chord(spec.root_note, spec.chord_type);
            let voiced = voice_chord(key_center, previous_bass, spec);
            let k = best_inversion(chord, previous_bass, key_center);
            &&& voiced.degree == spec.degree
            &&& voiced.root_note == spec.root_note
            &&& voiced.chord_type == spec.chord_type
            &&& is_best_inversion(chord, previous_bass, key_center, k)
            &&& voiced.notes == rotate_left(chord, k)
            &&& voiced.well_formed()
            &&& voiced.notes.len() == spec.chord_type.formula().len()
            &&& voiced.notes[0] == chord[k]
            &&& voiced.notes.to_multiset() == chord.to_multiset()
            &&& forall|j: int|
                0 <= j < voiced.notes.len() ==> !cost_below(
                    bass_cost(#[trigger] voiced.notes[j], previous_bass, key_center),
                    bass_cost(voiced.notes[0], previous_bass, key_center),
                )
        }),
{
    let chord = spec_build_chord(spec.root_note, spec.chord_type);
    let voiced = voice_chord(key_center, previous_bass, spec);
    lemma_chord_signatures_distinct(spec.chord_type, spec.chord_type);
    lemma_best_inversion_exists_once(chord, previous_bass, key_center);
    let k = best_inversion(chord, previous_bass, key_center);
    lemma_rotate_left_index(chord, k, 0);
    assert forall|j: int| 0 <= j < voiced.notes.len() implies !cost_below(
        bass_cost(#[trigger] voiced.notes[j], previous_bass, key_center),
        bass_cost(voiced.notes[0], previous_bass, key_center),
    ) by {
        lemma_rotate_left_index(chord, k, j);
        let from = (k + j) % (chord.len() as int);
        assert(voiced.notes[j] == chord[from]);
    }
}

/// A chord that has a note has exactly one inversion to choose.
pub proof fn lemma_best_inversion_exists_once(
    chord: Seq<Note>,
    previous_bass: Note,
    key_center: Note,
)
    requires
        chord.len() > 0,
    ensures
        is_best_inversion(
            chord,
            previous_bass,
            key_center,
            best_inversion(chord, previous_bass, key_center),
        ),
        forall|k: int|
            is_best_inversion(chord, previous_bass, key_center, k) ==> k == best_inversion(
                chord,
                previous_bass,
                key_center,
            ),
{
    let k = lemma_best_among_first(chord, previous_bass, key_center, chord.len() as int);
    assert(chord.take(chord.len() as int) =~= chord);
    let chosen = best_inversion(chord, previous_bass, key_center);
    assert forall|other: int|
        is_best_inversion(chord, previous_bass, key_center, other) implies other == chosen by {
        lemma_best_inversion_unique(chord, previous_bass, key_center, other, chosen);
    }
}

/// Two inversions that are both the one to choose are one inversion.
proof fn lemma_best_inversion_unique(
    chord: Seq<Note>,
    previous_bass: Note,
    key_center: Note,
    a: int,
    b: int,
)
    requires
        is_best_inversion(chord, previous_bass, key_center, a),
        is_best_inversion(chord, previous_bass, key_center, b),
    ensures
        a == b,
{
    if a < b {
        assert(cost_below(
            bass_cost(chord[b], previous_bass, key_center),
            bass_cost(chord[a], previous_bass, key_center),
        ));
    } else if b < a {
        assert(cost_below(
            bass_cost(chord[a], previous_bass, key_center),
            bass_cost(chord[b], previous_bass, key_center),
        ));
    }
}

/// Among the first `n` notes of a chord there is an inversion to choose.
proof fn lemma_best_among_first(
    chord: Seq<Note>,
    previous_bass: Note,
    key_center: Note,
    n: int,
) -> (k: int)
    requires
        0 < n <= chord.len(),
    ensures
        is_best_inversion(chord.take(n), previous_bass, key_center, k),
    decreases n,
{
    if n == 1 {
        0
    } else {
        let before = lemma_best_among_first(chord, previous_bass, key_center, n - 1);
        let shorter = chord.take(n - 1);
        let longer = chord.take(n);
        assert(forall|j: int| 0 <= j < n - 1 ==> shorter[j] == longer[j]);
        if cost_below(
            bass_cost(chord[n - 1], previous_bass, key_center),
            bass_cost(chord[before], previous_bass, key_center),
        ) {
            assert forall|j: int| 0 <= j < n - 1 implies cost_below(
                bass_cost(longer[n - 1], previous_bass, key_center),
                bass_cost(#[trigger] longer[j], previous_bass, key_center),
            ) by {
                assert(!cost_below(
                    bass_cost(shorter[j], previous_bass, key_center),
                    bass_cost(shorter[before], previous_bass, key_center),
                ));
            }
            n - 1
        } else {
            assert forall|j: int| 0 <= j < n implies !cost_below(
                bass_cost(#[trigger] longer[j], previous_bass, key_center),
                bass_cost(longer[before], previous_bass, key_center),
            ) by {
                if j < n - 1 {
                    assert(!cost_below(
                        bass_cost(shorter[j], previous_bass, key_center),
                        bass_cost(shorter[before], previous_bass, key_center),
                    ));
                }
            }
            assert forall|j: int| 0 <= j < before implies cost_below(
                bass_cost(longer[before], previous_bass, key_center),
                bass_cost(#[trigger] longer[j], previous_bass, key_center),
            ) by {
                assert(cost_below(
                    bass_cost(shorter[before], previous_bass, key_center),
                    bass_cost(shorter[j], previous_bass, key_center),
                ));
            }
            before
        }
    }
}

/// Whether a bass costs less than another, first by its distance from the
/// previous bass, then by its distance from the key center.
fn costs_less(bass: Note, other: Note, previous_bass: Note, key_center: Note) -> (less: bool)
    ensures
        less == cost_below(
            bass_cost(bass, previous_bass, key_center),
            bass_cost(other, previous_bass, key_center),
        ),
{
    let bass_prev: u8 = semitone_distance(bass, previous_bass);
    let other_prev: u8 = semitone_distance(other, previous_bass);
    if bass_prev != other_prev {
        bass_prev < other_prev
    } else {
        semitone_distance(bass, key_center) < semitone_distance(other, key_center)
    }
}

/// Finds the inversion to choose among the inversions of a chord: the first
/// of those whose bass lies nearest the previous bass and, among these,
/// nearest the key center.
pub fn choose_inversion(
    inversions: &Vec<Vec<Note>>,
    previous_bass: Note,
    key_center: Note,
) -> (k: usize)
    requires
        inversions@.len() > 0,
        forall|j: int| 0 <= j < inversions@.len() ==> (#[trigger] inversions@[j])@.len() > 0,
    ensures
        is_best_inversion(bass_line(inversions@), previous_bass, key_center, k as int),
        k as int == best_inversion(bass_line(inversions@), previous_bass, key_center),
{
    let ghost basses = bass_line(inversions@);
    let mut best: usize = 0;
    let mut j: usize = 1;
    while j < inversions.len()
        invariant
            1 <= j <= inversions@.len(),
            best < j,
            basses == bass_line(inversions@),
            forall|m: int| 0 <= m < inversions@.len() ==> (#[trigger] inversions@[m])@.len() > 0,
            forall|m: int|
                0 <= m < j ==> !cost_below(
                    bass_cost(#[trigger] basses[m], previous_bass, key_center),
                    bass_cost(basses[best as int], previous_bass, key_center),
                ),
            forall|m: int|
                0 <= m < best ==> cost_below(
                    bass_cost(basses[best as int], previous_bass, key_center),
                    bass_cost(#[trigger] basses[m], previous_bass, key_center),
                ),
        decreases inversions@.len() - j,
    {
        let candidate: Note = inversions[j][0];
        let held: Note = inversions[best][0];
        assert(candidate == basses[j as int]);
        assert(held == basses[best as int]);
        if costs_less(candidate, held, previous_bass, key_center) {
            best = j;
        }
        j += 1;
    }
    proof {
        assert(is_best_inversion(basses, previous_bass, key_center, best as int));
        lemma_best_inversion_exists_once(basses, previous_bass, key_center);
    }
    best
}

/// The bass notes of a chord's inversions: the first note of each.
pub open spec fn bass_line(inversions: Seq<Vec<Note>>) -> Seq<Note> {
    Seq::new(inversions.len(), |j: int| inversions[j]@[0])
}

/// Voices one chord after a chord whose bass was `previous_bass`: builds it on
/// its root, goes through its inversions and keeps the one to choose.
pub fn voice_next_chord(
    key_center: Note,
    previous_bass: Note,
    degree: String,
    chord_root: Note,
    chord_type: ChordType,
) -> (chord: ProgressionChord)
    ensures
        chord@ == voice_chord(
            key_center,
            previous_bass,
            ChordSpecView { degree: degree@, root_note: chord_root, chord_type },
        ),
        chord@.well_formed(),
        chord.notes@.len() == chord_type.formula().len(),
        chord.notes@.len() > 0,
{
    let root_chord: Vec<Note> = build_chord(chord_root, chord_type);
    let mut inversions: Vec<Vec<Note>> = get_inversions(root_chord.as_slice());
    proof {
        lemma_chord_signatures_distinct(chord_type, chord_type);
        assert forall|j: int| 0 <= j < inversions@.len() implies (#[trigger] inversions@[j])@.len()
            > 0 && inversions@[j]@[0] == root_chord@[j] by {
            lemma_rotate_left_index(root_chord@, j, 0);
        }
        assert(bass_line(inversions@) =~= root_chord@);
    }
    let k: usize = choose_inversion(&inversions, previous_bass, key_center);
    let notes: Vec<Note> = inversions.swap_remove(k);
    ProgressionChord { degree, root_note: chord_root, chord_type, notes }
}

/// Applies voice leading to a sequence of chords, each given by its label, its
/// root and its type. The first chord is measured against the key center, each
/// later one against the bass that was chosen for the chord before it.
pub fn solve_voice_leading(
    key_center: Note,
    chord_specs: Vec<(String, Note, ChordType)>,
) -> (progression: Vec<ProgressionChord>)
    ensures
        progression_views(progression@) == spec_solve_voice_leading(
            key_center,
            chord_spec_views(chord_specs@),
        ),
        progression@.len() == chord_specs@.len(),
        forall|i: int| 0 <= i < progression@.len() ==> (#[trigger] progression@[i])@.well_formed(),
{
    let ghost specs = chord_spec_views(chord_specs@);
    let mut progression: Vec<ProgressionChord> = Vec::new();
    let mut previous_bass_note: Note = key_center;
    let mut i: usize = 0;
    assert(progression_views(progression@) =~= spec_solve_voice_leading(
        key_center,
        specs.take(0),
    ));
    while i < chord_specs.len()
        invariant
            i <= chord_specs@.len(),
            specs == chord_spec_views(chord_specs@),
            progression@.len() == i,
            forall|j: int| 0 <= j < i ==> (#[trigger] progression@[j])@.well_formed(),
            progression_views(progression@) == spec_solve_voice_leading(
                key_center,
                specs.take(i as int),
            ),
            previous_bass_note == bass_after(key_center, progression_views(progression@)),
        decreases chord_specs@.len() - i,
    {
        let ghost voiced_before = progression_views(progression@);
        let degree: String = chord_specs[i].0.clone();
        let chord: ProgressionChord = voice_next_chord(
            key_center,
            previous_bass_note,
            degree,
            chord_specs[i].1,
            chord_specs[i].2,
        );
        previous_bass_note = chord.notes[0];
        progression.push(chord);
        i += 1;
        proof {
            assert(specs.take(i as int).drop_last() =~= specs.take(i - 1));
            assert(specs.take(i as int).last() == specs[i - 1]);
            assert(progression_views(progression@) =~= voiced_before.push(
                progression@[i - 1]@,
            ));
        }
    }
    assert(specs.take(i as int) =~= specs);
    progression
}

/// One entry of a progression's table: a chord by its label, by the interval
/// of its root from the key's root, and by its type.
pub open spec fn roman(
    degree: Seq<char>,
    interval_from_root: Interval,
    chord_type: ChordType,
) -> ParsedRomanChordView {
    ParsedRomanChordView { interval_from_root, chord_type, degree }
}

/// The chords of a named progression, whatever the key.
pub open spec fn formula_chords(formula: HarmonicFormula) -> Seq<ParsedRomanChordView> {
    match formula {
        HarmonicFormula::Block => seq![
            roman("I"@, Interval::Unison, ChordType::Major),
            roman("V7"@, Interval::PerfectFifth, ChordType::Dominant7),
            roman("I7"@, Interval::Unison, ChordType::Dominant7),
            roman("IV"@, Interval::PerfectFourth, ChordType::Major),
        ],
        HarmonicFormula::Circle => seq![
            roman("I"@, Interval::Unison, ChordType::Major),
            roman("vi"@, Interval::MajorSixth, ChordType::Minor),
            roman("ii"@, Interval::MajorSecond, ChordType::Minor),
            roman("V7"@, Interval::PerfectFifth, ChordType::Dominant7),
        ],
        HarmonicFormula::Guajira => seq![
            roman("I"@, Interval::Unison, ChordType::Major),
            roman("IV"@, Interval::PerfectFourth, ChordType::Major),
            roman("V7"@, Interval::PerfectFifth, ChordType::Dominant7),
        ],
        HarmonicFormula::BloqueRm => seq![
            roman("vi"@, Interval::MajorSixth, ChordType::Minor),
            roman("IV7"@, Interval::PerfectFourth, ChordType::Dominant7),
            roman("ii"@, Interval::MajorSecond, ChordType::Minor),
            roman("III7"@, Interval::MajorThird, ChordType::Dominant7),
        ],
    }
}

/// The progression of a named formula in the key of `root`.
pub open spec fn spec_build_progression(root: Note, formula: HarmonicFormula) -> Seq<
    ProgressionChordView,
> {
    spec_solve_voice_leading(root, place_in_key(root, formula_chords(formula)))
}

/// The progression of the given chord symbols in the key of `root`.
pub open spec fn spec_build_custom_progression(
    root: Note,
    chords: Seq<ParsedRomanChordView>,
) -> Seq<ProgressionChordView> {
    spec_solve_voice_leading(root, place_in_key(root, chords))
}

/// The label of each chord of a named progression, read as a chord symbol,
/// gives that chord: a named progression is the custom progression of its
/// labels.
pub proof fn lemma_formula_labels_parse(formula: HarmonicFormula, i: int)
    requires
        0 <= i < formula_chords(formula).len(),
    ensures
        spec_parse_roman_chord(formula_chords(formula)[i].degree) == Ok::<
            ParsedRomanChordView,
            ParseErrorView,
        >(formula_chords(formula)[i]),
        formula_chords(formula)[i].well_formed(),
{
    match formula {
        HarmonicFormula::Block => {
            if i == 0 {
                lemma_parse_upper_i();
            } else if i == 1 {
                lemma_parse_upper_v7();
            } else if i == 2 {
                lemma_parse_upper_i7();
            } else {
                lemma_parse_upper_iv();
            }
        },
        HarmonicFormula::Circle => {
            if i == 0 {
                lemma_parse_upper_i();
            } else if i == 1 {
                lemma_parse_lower_vi();
            } else if i == 2 {
                lemma_parse_lower_ii();
            } else {
                lemma_parse_upper_v7();
            }
        },
        HarmonicFormula::Guajira => {
            if i == 0 {
                lemma_parse_upper_i();
            } else if i == 1 {
                lemma_parse_upper_iv();
            } else {
                lemma_parse_upper_v7();
            }
        },
        HarmonicFormula::BloqueRm => {
            if i == 0 {
                lemma_parse_lower_vi();
            } else if i == 1 {
                lemma_parse_upper_iv7();
            } else if i == 2 {
                lemma_parse_lower_ii();
            } else {
                lemma_parse_upper_iii7();
            }
        },
    }
}

/// What the symbol `I` means.
proof fn lemma_parse_upper_i()
    ensures
        spec_parse_roman_chord("I"@) == Ok::<ParsedRomanChordView, ParseErrorView>(
            roman("I"@, Interval::Unison, ChordType::Major),
        ),
{
    reveal_strlit("I");
    reveal_strlit("");
    lemma_numeral_degree_by_letters("I"@);
    assert("I"@ =~= "I"@ + ""@);
    lemma_label_parses("I"@, "I"@, ""@, Interval::Unison, ChordType::Major);
}

/// What the symbol `V7` means.
proof fn lemma_parse_upper_v7()
    ensures
        spec_parse_roman_chord("V7"@) == Ok::<ParsedRomanChordView, ParseErrorView>(
            roman("V7"@, Interval::PerfectFifth, ChordType::Dominant7),
        ),
{
    reveal_strlit("V7");
    reveal_strlit("V");
    reveal_strlit("7");
    lemma_numeral_degree_by_letters("V"@);
    assert("V7"@ =~= "V"@ + "7"@);
    lemma_label_parses("V7"@, "V"@, "7"@, Interval::PerfectFifth, ChordType::Dominant7);
}

/// What the symbol `I7` means.
proof fn lemma_parse_upper_i7()
    ensures
        spec_parse_roman_chord("I7"@) == Ok::<ParsedRomanChordView, ParseErrorView>(
            roman("I7"@, Interval::Unison, ChordType::Dominant7),
        ),
{
    reveal_strlit("I7");
    reveal_strlit("I");
    reveal_strlit("7");
    lemma_numeral_degree_by_letters("I"@);
    assert("I7"@ =~= "I"@ + "7"@);
    lemma_label_parses("I7"@, "I"@, "7"@, Interval::Unison, ChordType::Dominant7);
}

/// What the symbol `IV` means.
proof fn lemma_parse_upper_iv()
    ensures
        spec_parse_roman_chord("IV"@) == Ok::<ParsedRomanChordView, ParseErrorView>(
            roman("IV"@, Interval::PerfectFourth, ChordType::Major),
        ),
{
    reveal_strlit("IV");
    reveal_strlit("");
    lemma_numeral_degree_by_letters("IV"@);
    assert("IV"@ =~= "IV"@ + ""@);
    lemma_label_parses("IV"@, "IV"@, ""@, Interval::PerfectFourth, ChordType::Major);
}

/// What the symbol `vi` means.
proof fn lemma_parse_lower_vi()
    ensures
        spec_parse_roman_chord("vi"@) == Ok::<ParsedRomanChordView, ParseErrorView>(
            roman("vi"@, Interval::MajorSixth, ChordType::Minor),
        ),
{
    reveal_strlit("vi");
    reveal_strlit("");
    lemma_numeral_degree_by_letters("vi"@);
    assert("vi"@ =~= "vi"@ + ""@);
    lemma_label_parses("vi"@, "vi"@, ""@, Interval::MajorSixth, ChordType::Minor);
}

/// What the symbol `ii` means.
proof fn lemma_parse_lower_ii()
    ensures
        spec_parse_roman_chord("ii"@) == Ok::<ParsedRomanChordView, ParseErrorView>(
            roman("ii"@, Interval::MajorSecond, ChordType::Minor),
        ),
{
    reveal_strlit("ii");
    reveal_strlit("");
    lemma_numeral_degree_by_letters("ii"@);
    assert("ii"@ =~= "ii"@ + ""@);
    lemma_label_parses("ii"@, "ii"@, ""@, Interval::MajorSecond, ChordType::Minor);
}

/// What the symbol `IV7` means.
proof fn lemma_parse_upper_iv7()
    ensures
        spec_parse_roman_chord("IV7"@) == Ok::<ParsedRomanChordView, ParseErrorView>(
            roman("IV7"@, Interval::PerfectFourth, ChordType::Dominant7),
        ),
{
    reveal_strlit("IV7");
    reveal_strlit("IV");
    reveal_strlit("7");
    lemma_numeral_degree_by_letters("IV"@);
    assert("IV7"@ =~= "IV"@ + "7"@);
    lemma_label_parses("IV7"@, "IV"@, "7"@, Interval::PerfectFourth, ChordType::Dominant7);
}

/// What the symbol `III7` means.
proof fn lemma_parse_upper_iii7()
    ensures
        spec_parse_roman_chord("III7"@) == Ok::<ParsedRomanChordView, ParseErrorView>(
            roman("III7"@, Interval::MajorThird, ChordType::Dominant7),
        ),
{
    reveal_strlit("III7");
    reveal_strlit("III");
    reveal_strlit("7");
    lemma_numeral_degree_by_letters("III"@);
    assert("III7"@ =~= "III"@ + "7"@);
    lemma_label_parses("III7"@, "III"@, "7"@, Interval::MajorThird, ChordType::Dominant7);
}

/// A symbol made of a numeral and of no suffix or the suffix `7` gives the
/// chord of the numeral's degree and case.
proof fn lemma_label_parses(
    label: Seq<char>,
    numeral: Seq<char>,
    suffix: Seq<char>,
    interval: Interval,
    chord_type: ChordType,
)
    requires
        label == numeral + suffix,
        1 <= numeral.len() <= 3,
        forall|i: int| 0 <= i < numeral.len() ==> is_numeral_letter(#[trigger] numeral[i]),
        suffix.len() == 0 || suffix == "7"@,
        numeral_degree(numeral) is Some,
        interval == degree_interval(numeral_degree(numeral)->0, 0),
        Some(chord_type) == spec_resolve_suffix(numeral[0] == 'I' || numeral[0] == 'V', suffix),
    ensures
        spec_parse_roman_chord(label) == Ok::<ParsedRomanChordView, ParseErrorView>(
            roman(label, interval, chord_type),
        ),
{
    reveal_strlit("7");
    assert(label.skip(0) =~= label);
    assert(forall|i: int| 0 <= i < numeral.len() ==> label[i] == numeral[i]);
    if suffix.len() > 0 {
        assert(label[numeral.len() as int] == suffix[0]);
    }
    lemma_numeral_len_is(label, numeral.len() as int);
    assert(label.subrange(0, numeral.len() as int) =~= numeral);
    assert(label.skip(numeral.len() as int) =~= suffix);
}

/// Returns the chords of the I-V7-I7-IV "Block" progression in the key of
/// `root`.
pub fn get_block_progression_spec(root: Note) -> (specs: Vec<(String, Note, ChordType)>)
    ensures
        chord_spec_views(specs@) == place_in_key(root, formula_chords(HarmonicFormula::Block)),
{
    let specs: Vec<(String, Note, ChordType)> = vec![
        ("I".to_owned(), root, ChordType::Major),
        ("V7".to_owned(), transpose(root, Interval::PerfectFifth), ChordType::Dominant7),
        ("I7".to_owned(), root, ChordType::Dominant7),
        ("IV".to_owned(), transpose(root, Interval::PerfectFourth), ChordType::Major),
    ];
    proof {
        lemma_note_index_bijection(root, 0);
        assert(chord_spec_views(specs@) =~= place_in_key(
            root,
            formula_chords(HarmonicFormula::Block),
        ));
    }
    specs
}

/// Returns the chords of the I-vi-ii-V7 "Circle" progression in the key of
/// `root`.
pub fn get_circle_progression_spec(root: Note) -> (specs: Vec<(String, Note, ChordType)>)
    ensures
        chord_spec_views(specs@) == place_in_key(root, formula_chords(HarmonicFormula::Circle)),
{
    let specs: Vec<(String, Note, ChordType)> = vec![
        ("I".to_owned(), root, ChordType::Major),
        ("vi".to_owned(), transpose(root, Interval::MajorSixth), ChordType::Minor),
        ("ii".to_owned(), transpose(root, Interval::MajorSecond), ChordType::Minor),
        ("V7".to_owned(), transpose(root, Interval::PerfectFifth), ChordType::Dominant7),
    ];
    proof {
        lemma_note_index_bijection(root, 0);
        assert(chord_spec_views(specs@) =~= place_in_key(
            root,
            formula_chords(HarmonicFormula::Circle),
        ));
    }
    specs
}

/// Returns the chords of the I-IV-V7 "Guajira" progression in the key of
/// `root`.
pub fn get_guajira_progression_spec(root: Note) -> (specs: Vec<(String, Note, ChordType)>)
    ensures
        chord_spec_views(specs@) == place_in_key(root, formula_chords(HarmonicFormula::Guajira)),
{
    let specs: Vec<(String, Note, ChordType)> = vec![
        ("I".to_owned(), root, ChordType::Major),
        ("IV".to_owned(), transpose(root, Interval::PerfectFourth), ChordType::Major),
        ("V7".to_owned(), transpose(root, Interval::PerfectFifth), ChordType::Dominant7),
    ];
    proof {
        lemma_note_index_bijection(root, 0);
        assert(chord_spec_views(specs@) =~= place_in_key(
            root,
            formula_chords(HarmonicFormula::Guajira),
        ));
    }
    specs
}

/// Returns the chords of the vi-IV7-ii-III7 relative-minor block in the key
/// of `root`.
pub fn get_bloque_rm_progression_spec(root: Note) -> (specs: Vec<(String, Note, ChordType)>)
    ensures
        chord_spec_views(specs@) == place_in_key(root, formula_chords(HarmonicFormula::BloqueRm)),
{
    let specs: Vec<(String, Note, ChordType)> = vec![
        ("vi".to_owned(), transpose(root, Interval::MajorSixth), ChordType::Minor),
        ("IV7".to_owned(), transpose(root, Interval::PerfectFourth), ChordType::Dominant7),
        ("ii".to_owned(), transpose(root, Interval::MajorSecond), ChordType::Minor),
        ("III7".to_owned(), transpose(root, Interval::MajorThird), ChordType::Dominant7),
    ];
    proof {
        assert(chord_spec_views(specs@) =~= place_in_key(
            root,
            formula_chords(HarmonicFormula::BloqueRm),
        ));
    }
    specs
}

/// Builds a chord progression from a root note and a named formula: the
/// formula's chords are placed in the key of `root` and voiced one after the
/// other.
pub fn build_progression(root: Note, formula: HarmonicFormula) -> (progression: Vec<
    ProgressionChord,
>)
    ensures
        progression_views(progression@) == spec_build_progression(root, formula),
        progression@.len() == formula_chords(formula).len(),
        forall|i: int| 0 <= i < progression@.len() ==> (#[trigger] progression@[i])@.well_formed(),
{
    let chord_specs: Vec<(String, Note, ChordType)> = match formula {
        HarmonicFormula::Block => get_block_progression_spec(root),
        HarmonicFormula::Circle => get_circle_progression_spec(root),
        HarmonicFormula::Guajira => get_guajira_progression_spec(root),
        HarmonicFormula::BloqueRm => get_bloque_rm_progression_spec(root),
    };
    assert(chord_spec_views(chord_specs@).len() == chord_specs@.len());
    solve_voice_leading(root, chord_specs)
}

/// Builds a chord progression from a root note and a list of parsed chord
/// symbols: each chord's root lies its symbol's interval above `root`, and the
/// chords are voiced one after the other.
pub fn build_custom_progression(root: Note, specs: Vec<ParsedRomanChord>) -> (progression: Vec<
    ProgressionChord,
>)
    ensures
        progression_views(progression@) == spec_build_custom_progression(
            root,
            parsed_views(specs@),
        ),
        progression@.len() == specs@.len(),
        forall|i: int| 0 <= i < progression@.len() ==> (#[trigger] progression@[i])@.well_formed(),
{
    let mut chord_specs: Vec<(String, Note, ChordType)> = Vec::new();
    let mut i: usize = 0;
    while i < specs.len()
        invariant
            i <= specs@.len(),
            chord_specs@.len() == i,
            chord_spec_views(chord_specs@) == place_in_key(
                root,
                parsed_views(specs@).take(i as int),
            ),
        decreases specs@.len() - i,
    {
        let ghost placed_before = chord_spec_views(chord_specs@);
        chord_specs.push(
            (
                specs[i].degree.clone(),
                transpose(root, specs[i].interval_from_root),
                specs[i].chord_type,
            ),
        );
        i += 1;
        proof {
            let placed = place_in_key(root, parsed_views(specs@).take(i as int));
            assert forall|j: int| 0 <= j < i implies chord_spec_views(chord_specs@)[j]
                == placed[j] by {
                if j < i - 1 {
                    assert(chord_spec_views(chord_specs@)[j] == placed_before[j]);
                    assert(parsed_views(specs@).take(i - 1)[j] == parsed_views(specs@).take(
                        i as int,
                    )[j]);
                }
            }
            assert(chord_spec_views(chord_specs@) =~= placed);
        }
    }
    assert(parsed_views(specs@).take(i as int) =~= parsed_views(specs@));
    solve_voice_leading(root, chord_specs)
}

} // verus!
