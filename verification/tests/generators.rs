use tonic_music::formula::{ChordType, ScaleType};
use tonic_music::pitch::{Interval, Note};
use tonic_music::{
    build_chord, build_scale, get_chord_quality_symbol, get_inversions, Inconsistency,
};

const CHORD_TYPES: [ChordType; 11] = [
    ChordType::Major,
    ChordType::Minor,
    ChordType::Diminished,
    ChordType::Augmented,
    ChordType::Major7,
    ChordType::Minor7,
    ChordType::Dominant7,
    ChordType::Minor7b5,
    ChordType::Diminished7,
    ChordType::MinorMajor7,
    ChordType::AugmentedMajor7,
];

#[test]
fn test_lib_build_scale_c_major() {
    let scale = build_scale(Note::C, ScaleType::Major);
    let expected = vec![
        Note::C,
        Note::D,
        Note::E,
        Note::F,
        Note::G,
        Note::A,
        Note::B,
    ];
    assert_eq!(scale, expected);
}

#[test]
fn test_lib_build_scale_a_harmonic_minor() {
    let scale = build_scale(Note::A, ScaleType::MinorHarmonic);
    let expected = vec![
        Note::A,
        Note::B,
        Note::C,
        Note::D,
        Note::E,
        Note::F,
        Note::GSharp,
    ];
    assert_eq!(scale, expected);
}

#[test]
fn test_lib_build_chord_a_minor() {
    let chord = build_chord(Note::A, ChordType::Minor);
    let expected = vec![Note::A, Note::C, Note::E];
    assert_eq!(chord, expected);
}

#[test]
fn test_lib_build_chord_b_diminished() {
    let chord = build_chord(Note::B, ChordType::Diminished);
    let expected = vec![Note::B, Note::D, Note::F];
    assert_eq!(chord, expected);
}

#[test]
fn test_lib_chord_type_from_intervals_logic() {
    // Try the logic that gave us problems (Minor)
    // A (9) -> C (0) = 3 semitones
    // A (9) -> E (4) = 7 semitones
    let third_interval = (Note::C.as_u8() + 12 - Note::A.as_u8()) % 12;
    let fifth_interval = (Note::E.as_u8() + 12 - Note::A.as_u8()) % 12;
    assert_eq!(third_interval, 3);
    assert_eq!(fifth_interval, 7);
    assert_eq!(
        ChordType::from_intervals(third_interval, fifth_interval, None),
        ChordType::Minor
    );

    // Test the logic (Diminished)
    // B (11) -> D (2) = 3 semitones
    // B (11) -> F (5) = 6 semitones
    let third_interval_b = (Note::D.as_u8() + 12 - Note::B.as_u8()) % 12;
    let fifth_interval_b = (Note::F.as_u8() + 12 - Note::B.as_u8()) % 12;
    assert_eq!(third_interval_b, 3);
    assert_eq!(fifth_interval_b, 6);
    assert_eq!(
        ChordType::from_intervals(third_interval_b, fifth_interval_b, None),
        ChordType::Diminished
    );
}

#[test]
fn test_lib_build_chord_sevenths() {
    let chord = build_chord(Note::C, ChordType::Major7);
    let expected = vec![Note::C, Note::E, Note::G, Note::B];
    assert_eq!(chord, expected);

    let chord = build_chord(Note::G, ChordType::Dominant7);
    let expected = vec![Note::G, Note::B, Note::D, Note::F];
    assert_eq!(chord, expected);

    let chord = build_chord(Note::A, ChordType::Minor7);
    let expected = vec![Note::A, Note::C, Note::E, Note::G];
    assert_eq!(chord, expected);
}

#[test]
fn test_lib_get_inversions() {
    let chord = vec![Note::C, Note::E, Note::G];
    let inversions = get_inversions(&chord);

    let expected = vec![
        vec![Note::C, Note::E, Note::G], // Root
        vec![Note::E, Note::G, Note::C], // 1st
        vec![Note::G, Note::C, Note::E], // 2nd
    ];

    assert_eq!(inversions, expected);

    // Try a 7th chord
    let chord_7 = vec![Note::G, Note::B, Note::D, Note::F];
    let inversions_7 = get_inversions(&chord_7);

    let expected_7 = vec![
        vec![Note::G, Note::B, Note::D, Note::F], // Root
        vec![Note::B, Note::D, Note::F, Note::G], // 1st
        vec![Note::D, Note::F, Note::G, Note::B], // 2nd
        vec![Note::F, Note::G, Note::B, Note::D], // 3rd
    ];

    assert_eq!(inversions_7, expected_7);
}

#[test]
fn test_lib_build_scale_pentatonic() {
    // C Major Pentatonic: C, D, E, G, A
    let scale = build_scale(Note::C, ScaleType::PentatonicMajor);
    let expected = vec![Note::C, Note::D, Note::E, Note::G, Note::A];
    assert_eq!(scale, expected);

    // A Minor Pentatonic: A, C, D, E, G
    let scale = build_scale(Note::A, ScaleType::PentatonicMinor);
    let expected = vec![Note::A, Note::C, Note::D, Note::E, Note::G];
    assert_eq!(scale, expected);
}

#[test]
fn scale_formulas_are_the_catalog() {
    let semitones = |t: ScaleType| -> Vec<u8> { t.intervals().iter().map(|i| i.as_u8()).collect() };
    assert_eq!(semitones(ScaleType::Major), vec![0, 2, 4, 5, 7, 9, 11]);
    assert_eq!(semitones(ScaleType::MinorNatural), vec![0, 2, 3, 5, 7, 8, 10]);
    assert_eq!(semitones(ScaleType::MinorHarmonic), vec![0, 2, 3, 5, 7, 8, 11]);
    assert_eq!(semitones(ScaleType::PentatonicMajor), vec![0, 2, 4, 7, 9]);
    assert_eq!(semitones(ScaleType::PentatonicMinor), vec![0, 3, 5, 7, 10]);
}

#[test]
fn chord_formulas_are_the_catalog() {
    let semitones = |t: ChordType| -> Vec<u8> { t.intervals().iter().map(|i| i.as_u8()).collect() };
    assert_eq!(semitones(ChordType::Major), vec![0, 4, 7]);
    assert_eq!(semitones(ChordType::Minor), vec![0, 3, 7]);
    assert_eq!(semitones(ChordType::Diminished), vec![0, 3, 6]);
    assert_eq!(semitones(ChordType::Augmented), vec![0, 4, 8]);
    assert_eq!(semitones(ChordType::Major7), vec![0, 4, 7, 11]);
    assert_eq!(semitones(ChordType::Minor7), vec![0, 3, 7, 10]);
    assert_eq!(semitones(ChordType::Dominant7), vec![0, 4, 7, 10]);
    assert_eq!(semitones(ChordType::Minor7b5), vec![0, 3, 6, 10]);
    assert_eq!(semitones(ChordType::Diminished7), vec![0, 3, 6, 9]);
    assert_eq!(semitones(ChordType::MinorMajor7), vec![0, 3, 7, 11]);
    assert_eq!(semitones(ChordType::AugmentedMajor7), vec![0, 4, 8, 11]);
    assert_eq!(ChordType::Major.intervals()[1], Interval::MajorThird);
}

#[test]
fn every_recognized_signature_is_classified() {
    assert_eq!(ChordType::from_intervals(4, 7, Some(11)), ChordType::Major7);
    assert_eq!(ChordType::from_intervals(3, 7, Some(10)), ChordType::Minor7);
    assert_eq!(ChordType::from_intervals(4, 7, Some(10)), ChordType::Dominant7);
    assert_eq!(ChordType::from_intervals(3, 6, Some(10)), ChordType::Minor7b5);
    assert_eq!(ChordType::from_intervals(3, 6, Some(9)), ChordType::Diminished7);
    assert_eq!(ChordType::from_intervals(3, 7, Some(11)), ChordType::MinorMajor7);
    assert_eq!(ChordType::from_intervals(4, 8, Some(11)), ChordType::AugmentedMajor7);
    assert_eq!(ChordType::from_intervals(4, 7, None), ChordType::Major);
    assert_eq!(ChordType::from_intervals(3, 7, None), ChordType::Minor);
    assert_eq!(ChordType::from_intervals(3, 6, None), ChordType::Diminished);
    assert_eq!(ChordType::from_intervals(4, 8, None), ChordType::Augmented);
}

#[test]
fn classifier_inverts_every_formula() {
    for chord_type in CHORD_TYPES.iter() {
        let formula = chord_type.intervals();
        let third = formula[1].as_u8();
        let fifth = formula[2].as_u8();
        let seventh = formula.get(3).map(|i| i.as_u8());
        assert_eq!(ChordType::try_from_intervals(third, fifth, seventh), Ok(*chord_type));
        assert_eq!(ChordType::from_intervals(third, fifth, seventh), *chord_type);
    }
}

#[test]
fn the_fully_diminished_chord_has_a_diminished_seventh() {
    assert_eq!(
        build_chord(Note::B, ChordType::Diminished7),
        vec![Note::B, Note::D, Note::F, Note::GSharp]
    );
    assert_eq!(ChordType::Diminished7.intervals()[3], Interval::MajorSixth);
    assert_eq!(
        ChordType::try_from_intervals(3, 6, Some(8)),
        Err(Inconsistency::UnclassifiableChord { third: 3, fifth: 6, seventh: Some(8) })
    );
}

#[test]
fn unknown_signature_is_reported_with_its_distances() {
    assert_eq!(
        ChordType::try_from_intervals(0, 0, None),
        Err(Inconsistency::UnclassifiableChord { third: 0, fifth: 0, seventh: None })
    );
    assert_eq!(
        ChordType::try_from_intervals(4, 7, Some(9)),
        Err(Inconsistency::UnclassifiableChord { third: 4, fifth: 7, seventh: Some(9) })
    );
    assert_eq!(ChordType::try_from_intervals(4, 7, None), Ok(ChordType::Major));
}

#[test]
fn build_chord_has_one_note_for_each_interval() {
    for chord_type in CHORD_TYPES.iter() {
        let chord = build_chord(Note::DSharp, *chord_type);
        assert_eq!(chord.len(), chord_type.intervals().len());
        assert_eq!(chord[0], Note::DSharp);
    }
    assert_eq!(
        build_chord(Note::FSharp, ChordType::Dominant7),
        vec![Note::FSharp, Note::ASharp, Note::CSharp, Note::E]
    );
}

#[test]
fn no_notes_have_no_inversions() {
    let none: Vec<Note> = Vec::new();
    assert_eq!(get_inversions(&none), Vec::<Vec<Note>>::new());
}

#[test]
fn one_note_has_itself_as_only_inversion() {
    assert_eq!(get_inversions(&[Note::E]), vec![vec![Note::E]]);
}

#[test]
fn inversions_are_the_rotations_of_the_chord() {
    let chord = build_chord(Note::A, ChordType::Minor7b5);
    let inversions = get_inversions(&chord);
    let n = chord.len();
    assert_eq!(inversions.len(), n);
    for (i, inversion) in inversions.iter().enumerate() {
        assert_eq!(inversion.len(), n);
        for j in 0..n {
            assert_eq!(inversion[j], chord[(i + j) % n]);
        }
    }
}

#[test]
fn rotating_as_often_as_there_are_notes_returns_the_chord() {
    let chord = vec![Note::G, Note::B, Note::D, Note::F];
    let mut turned = chord.clone();
    for _ in 0..chord.len() {
        turned = get_inversions(&turned)[1].clone();
    }
    assert_eq!(turned, chord);
}

#[test]
fn quality_symbols() {
    let symbols: Vec<&str> = CHORD_TYPES.iter().map(|t| get_chord_quality_symbol(*t)).collect();
    assert_eq!(
        symbols,
        vec!["", "m", "°", "+", "maj7", "m7", "7", "m7b5", "°7", "m(maj7)", "aug(maj7)"]
    );
}
