use tonic_music::formula::ChordType;
use tonic_music::parser::{parse_progression, ParsedRomanChord};
use tonic_music::pitch::{Interval, Note};
use tonic_music::{
    build_custom_progression, build_progression, choose_inversion, get_block_progression_spec,
    get_bloque_rm_progression_spec, get_circle_progression_spec, get_guajira_progression_spec,
    solve_voice_leading, voice_next_chord, HarmonicFormula, ProgressionChord,
};

const NOTES: [Note; 12] = [
    Note::C,
    Note::CSharp,
    Note::D,
    Note::DSharp,
    Note::E,
    Note::F,
    Note::FSharp,
    Note::G,
    Note::GSharp,
    Note::A,
    Note::ASharp,
    Note::B,
];

#[test]
fn test_lib_build_block_progression_fsharp() {
    let progression = build_progression(Note::FSharp, HarmonicFormula::Block);

    let roots: Vec<Note> = progression.iter().map(|c| c.root_note).collect();
    assert_eq!(
        roots,
        vec![Note::FSharp, Note::CSharp, Note::FSharp, Note::B]
    );

    let types: Vec<ChordType> = progression.iter().map(|c| c.chord_type).collect();
    assert_eq!(
        types,
        vec![
            ChordType::Major,
            ChordType::Dominant7,
            ChordType::Dominant7,
            ChordType::Major
        ]
    );

    // Test F#7 (I7) - Should be root position [F#, A#, C#, E]
    // Previous Bass: F (from V7). Dist to F# is 1. Dist to E is 1.
    // Tie breaker: Centering. F# is Tonic (dist 0). E is dist 2.
    // Winner: Bass F# (Root).
    assert_eq!(
        progression[2].notes,
        vec![Note::FSharp, Note::ASharp, Note::CSharp, Note::E]
    );

    // Test C#7 (V7)
    // Previous Bass: F# (I).
    // Inv Root (C#): Dist F#->C# = 7 or 5? semitone_distance(F#, C#) = 5.
    // Inv 1 (F): Dist F#->F = 1.
    // Inv 2 (G#): Dist F#->G# = 2.
    // Inv 3 (B): Dist F#->B = 5.
    // Winner: Inv 1 (Bass F / E#). Dist 1.
    assert_eq!(
        progression[1].notes,
        vec![Note::F, Note::GSharp, Note::B, Note::CSharp]
    );
}

#[test]
fn test_lib_build_circle_progression_c_major() {
    let progression = build_progression(Note::C, HarmonicFormula::Circle);

    // Check the roots: C, A, D, G
    let roots: Vec<Note> = progression.iter().map(|c| c.root_note).collect();
    assert_eq!(roots, vec![Note::C, Note::A, Note::D, Note::G]);

    // Check the types: Major, Minor, Minor, Dominant7
    let types: Vec<ChordType> = progression.iter().map(|c| c.chord_type).collect();
    assert_eq!(
        types,
        vec![
            ChordType::Major,
            ChordType::Minor,
            ChordType::Minor,
            ChordType::Dominant7
        ]
    );

    // Check the notes of the V7 (G7)
    // Prev Bass: D (from Dm).
    // Inv Root (G): Dist D->G = 5.
    // Inv 1 (B): Dist D->B = 3.
    // Inv 2 (D): Dist D->D = 0.
    // Winner: Inv 2 (Bass D). [D, F, G, B]
    assert_eq!(
        progression[3].notes,
        vec![Note::D, Note::F, Note::G, Note::B]
    );
}

#[test]
fn test_lib_build_guajira_progression_c() {
    let progression = build_progression(Note::C, HarmonicFormula::Guajira);

    // I, IV, V7
    let roots: Vec<Note> = progression.iter().map(|c| c.root_note).collect();
    assert_eq!(roots, vec![Note::C, Note::F, Note::G]);

    let types: Vec<ChordType> = progression.iter().map(|c| c.chord_type).collect();
    assert_eq!(
        types,
        vec![ChordType::Major, ChordType::Major, ChordType::Dominant7]
    );
}

#[test]
fn test_lib_build_bloque_rm_progression_c() {
    let progression = build_progression(Note::C, HarmonicFormula::BloqueRm);

    // vi, IV7, ii, III7
    // C Major -> A, F, D, E
    let roots: Vec<Note> = progression.iter().map(|c| c.root_note).collect();
    assert_eq!(roots, vec![Note::A, Note::F, Note::D, Note::E]);

    let types: Vec<ChordType> = progression.iter().map(|c| c.chord_type).collect();
    assert_eq!(
        types,
        vec![
            ChordType::Minor,
            ChordType::Dominant7,
            ChordType::Minor,
            ChordType::Dominant7
        ]
    );
}

fn labels(progression: &[ProgressionChord]) -> Vec<String> {
    progression.iter().map(|c| c.degree.clone()).collect()
}

#[test]
fn named_progressions_carry_their_labels() {
    assert_eq!(
        labels(&build_progression(Note::D, HarmonicFormula::Block)),
        vec!["I", "V7", "I7", "IV"]
    );
    assert_eq!(
        labels(&build_progression(Note::D, HarmonicFormula::Circle)),
        vec!["I", "vi", "ii", "V7"]
    );
    assert_eq!(
        labels(&build_progression(Note::D, HarmonicFormula::Guajira)),
        vec!["I", "IV", "V7"]
    );
    assert_eq!(
        labels(&build_progression(Note::D, HarmonicFormula::BloqueRm)),
        vec!["vi", "IV7", "ii", "III7"]
    );
}

#[test]
fn progression_tables_in_the_key_of_e() {
    assert_eq!(
        get_block_progression_spec(Note::E),
        vec![
            ("I".to_string(), Note::E, ChordType::Major),
            ("V7".to_string(), Note::B, ChordType::Dominant7),
            ("I7".to_string(), Note::E, ChordType::Dominant7),
            ("IV".to_string(), Note::A, ChordType::Major),
        ]
    );
    assert_eq!(
        get_circle_progression_spec(Note::E),
        vec![
            ("I".to_string(), Note::E, ChordType::Major),
            ("vi".to_string(), Note::CSharp, ChordType::Minor),
            ("ii".to_string(), Note::FSharp, ChordType::Minor),
            ("V7".to_string(), Note::B, ChordType::Dominant7),
        ]
    );
    assert_eq!(
        get_guajira_progression_spec(Note::E),
        vec![
            ("I".to_string(), Note::E, ChordType::Major),
            ("IV".to_string(), Note::A, ChordType::Major),
            ("V7".to_string(), Note::B, ChordType::Dominant7),
        ]
    );
    assert_eq!(
        get_bloque_rm_progression_spec(Note::E),
        vec![
            ("vi".to_string(), Note::CSharp, ChordType::Minor),
            ("IV7".to_string(), Note::A, ChordType::Dominant7),
            ("ii".to_string(), Note::FSharp, ChordType::Minor),
            ("III7".to_string(), Note::GSharp, ChordType::Dominant7),
        ]
    );
}

#[test]
fn circle_in_c_note_by_note() {
    let progression = build_progression(Note::C, HarmonicFormula::Circle);
    let notes: Vec<Vec<Note>> = progression.into_iter().map(|c| c.notes).collect();
    assert_eq!(
        notes,
        vec![
            // Previous bass C: the root position has distance 0.
            vec![Note::C, Note::E, Note::G],
            // Previous bass C: A is 3 away, C is 0 away.
            vec![Note::C, Note::E, Note::A],
            // Previous bass C: D is 2, F is 5, A is 3 away.
            vec![Note::D, Note::F, Note::A],
            // Previous bass D: D is 0 away.
            vec![Note::D, Note::F, Note::G, Note::B],
        ]
    );
}

#[test]
fn the_first_chord_may_start_in_an_inversion() {
    // In the key of C the chord on vi has C itself as its third.
    let progression = build_progression(Note::C, HarmonicFormula::BloqueRm);
    assert_eq!(progression[0].root_note, Note::A);
    assert_eq!(progression[0].notes, vec![Note::C, Note::E, Note::A]);
}

#[test]
fn the_key_center_breaks_a_tie() {
    // Basses F# and E are both 1 away from F; F# is the key center.
    let chord = voice_next_chord(
        Note::FSharp,
        Note::F,
        "I7".to_string(),
        Note::FSharp,
        ChordType::Dominant7,
    );
    assert_eq!(chord.notes, vec![Note::FSharp, Note::ASharp, Note::CSharp, Note::E]);
    // With E as the key center the same tie goes the other way.
    let chord = voice_next_chord(
        Note::E,
        Note::F,
        "II7".to_string(),
        Note::FSharp,
        ChordType::Dominant7,
    );
    assert_eq!(chord.notes, vec![Note::E, Note::FSharp, Note::ASharp, Note::CSharp]);
    assert_eq!(chord.root_note, Note::FSharp);
    assert_eq!(chord.degree, "II7");
}

#[test]
fn the_first_of_equal_inversions_is_chosen() {
    // C and E are both 1 away from D# and 2 away from the key center D.
    let inversions = vec![
        vec![Note::C, Note::E, Note::G],
        vec![Note::E, Note::G, Note::C],
        vec![Note::G, Note::C, Note::E],
    ];
    assert_eq!(choose_inversion(&inversions, Note::CSharp, Note::D), 0);
    let swapped = vec![
        vec![Note::E, Note::G, Note::C],
        vec![Note::C, Note::E, Note::G],
        vec![Note::G, Note::C, Note::E],
    ];
    assert_eq!(choose_inversion(&swapped, Note::D, Note::D), 0);
    assert_eq!(choose_inversion(&swapped, Note::FSharp, Note::D), 2);
    assert_eq!(choose_inversion(&swapped, Note::B, Note::D), 1);
}

#[test]
fn no_chords_give_no_progression() {
    assert_eq!(solve_voice_leading(Note::C, Vec::new()), vec![]);
    assert_eq!(build_custom_progression(Note::C, Vec::new()), vec![]);
}

#[test]
fn each_bass_is_nearest_to_the_bass_before() {
    fn distance(a: Note, b: Note) -> u8 {
        let d = (a.as_u8() as i8 - b.as_u8() as i8).unsigned_abs();
        d.min(12 - d)
    }
    for root in NOTES.iter() {
        for formula in [
            HarmonicFormula::Block,
            HarmonicFormula::Circle,
            HarmonicFormula::Guajira,
            HarmonicFormula::BloqueRm,
        ] {
            let progression = build_progression(*root, formula);
            let mut previous = *root;
            for chord in progression.iter() {
                let bass = chord.notes[0];
                let chosen = (distance(bass, previous), distance(bass, *root));
                for note in chord.notes.iter() {
                    assert!(chosen <= (distance(*note, previous), distance(*note, *root)));
                }
                let mut rooted = chord.notes.clone();
                while rooted[0] != chord.root_note {
                    rooted.rotate_left(1);
                }
                assert_eq!(rooted, tonic_music::build_chord(chord.root_note, chord.chord_type));
                previous = bass;
            }
        }
    }
}

#[test]
fn custom_progression_places_each_chord_in_the_key() {
    let specs = vec![
        ParsedRomanChord {
            interval_from_root: Interval::Unison,
            chord_type: ChordType::Minor,
            degree: "i".to_string(),
        },
        ParsedRomanChord {
            interval_from_root: Interval::MinorSixth,
            chord_type: ChordType::Major,
            degree: "bVI".to_string(),
        },
        ParsedRomanChord {
            interval_from_root: Interval::MinorSeventh,
            chord_type: ChordType::Dominant7,
            degree: "bVII7".to_string(),
        },
    ];
    let progression = build_custom_progression(Note::A, specs);
    assert_eq!(
        progression,
        vec![
            ProgressionChord {
                degree: "i".to_string(),
                root_note: Note::A,
                chord_type: ChordType::Minor,
                notes: vec![Note::A, Note::C, Note::E],
            },
            ProgressionChord {
                degree: "bVI".to_string(),
                root_note: Note::F,
                chord_type: ChordType::Major,
                notes: vec![Note::A, Note::C, Note::F],
            },
            ProgressionChord {
                degree: "bVII7".to_string(),
                root_note: Note::G,
                chord_type: ChordType::Dominant7,
                notes: vec![Note::G, Note::B, Note::D, Note::F],
            },
        ]
    );
}

#[test]
fn named_progressions_are_their_labels_parsed() {
    for root in NOTES.iter() {
        for (formula, text) in [
            (HarmonicFormula::Block, "I V7 I7 IV"),
            (HarmonicFormula::Circle, "I vi ii V7"),
            (HarmonicFormula::Guajira, "I IV V7"),
            (HarmonicFormula::BloqueRm, "vi IV7 ii III7"),
        ] {
            let specs: Vec<ParsedRomanChord> = parse_progression(text).unwrap();
            assert_eq!(
                build_custom_progression(*root, specs),
                build_progression(*root, formula)
            );
        }
    }
}
