use tonic_music::formula::ChordType;
use tonic_music::parser::{
    parse_note, parse_progression, parse_roman_chord, parse_symbols, resolve_suffix,
    roman_numeral, split_symbols, ParsedRomanChord,
};
use tonic_music::pitch::{Interval, Note};
use tonic_music::ParseError;

#[test]
fn test_parse_note_simple() {
    assert_eq!(parse_note("C"), Ok(Note::C));
    assert_eq!(parse_note("E"), Ok(Note::E));
}

#[test]
fn test_parse_note_case_insensitive() {
    assert_eq!(parse_note("c"), Ok(Note::C)); // Lower case
    assert_eq!(parse_note("f#"), Ok(Note::FSharp)); // Lowercase sharp
    assert_eq!(parse_note("Db"), Ok(Note::CSharp)); // Capital letter flat
}

#[test]
fn test_parse_note_aliases() {
    assert_eq!(parse_note("C#"), Ok(Note::CSharp));
    assert_eq!(parse_note("Db"), Ok(Note::CSharp)); // Alias Db -> CSharp
    assert_eq!(parse_note("Eb"), Ok(Note::DSharp)); // Alias Eb -> DSharp
    assert_eq!(parse_note("bb"), Ok(Note::ASharp)); // Alias bb -> ASharp
}

#[test]
fn test_parse_note_invalid() {
    assert!(parse_note("H").is_err());
}

#[test]
fn test_parse_roman_simple() {
    // I -> Unison, Major
    let res = parse_roman_chord("I").unwrap();
    assert_eq!(res.interval_from_root, Interval::Unison);
    assert_eq!(res.chord_type, ChordType::Major);

    // iv -> PerfectFourth, Minor
    let res = parse_roman_chord("iv").unwrap();
    assert_eq!(res.interval_from_root, Interval::PerfectFourth);
    assert_eq!(res.chord_type, ChordType::Minor);
}

#[test]
fn test_parse_roman_accidental() {
    // bVII -> MinorSeventh (11-1=10), Major
    let res = parse_roman_chord("bVII").unwrap();
    assert_eq!(res.interval_from_root, Interval::MinorSeventh);
    assert_eq!(res.chord_type, ChordType::Major);

    // #IV -> Tritone (5+1=6), Major
    let res = parse_roman_chord("#IV").unwrap();
    assert_eq!(res.interval_from_root, Interval::Tritone);
    assert_eq!(res.chord_type, ChordType::Major);
}

#[test]
fn test_parse_roman_suffixes() {
    // V7 -> Dominant7
    let res = parse_roman_chord("V7").unwrap();
    assert_eq!(res.chord_type, ChordType::Dominant7);

    // ii7 -> Minor7
    let res = parse_roman_chord("ii7").unwrap();
    assert_eq!(res.chord_type, ChordType::Minor7);

    // Imaj7
    let res = parse_roman_chord("Imaj7").unwrap();
    assert_eq!(res.chord_type, ChordType::Major7);

    // viidim
    let res = parse_roman_chord("viidim").unwrap();
    assert_eq!(res.chord_type, ChordType::Diminished);
}

#[test]
fn every_note_name_is_read() {
    let names = [
        ("c", Note::C),
        ("c#", Note::CSharp),
        ("db", Note::CSharp),
        ("d", Note::D),
        ("d#", Note::DSharp),
        ("eb", Note::DSharp),
        ("e", Note::E),
        ("f", Note::F),
        ("f#", Note::FSharp),
        ("gb", Note::FSharp),
        ("g", Note::G),
        ("g#", Note::GSharp),
        ("ab", Note::GSharp),
        ("a", Note::A),
        ("a#", Note::ASharp),
        ("bb", Note::ASharp),
        ("b", Note::B),
    ];
    for (name, note) in names.iter() {
        assert_eq!(parse_note(name), Ok(*note));
        assert_eq!(parse_note(&name.to_uppercase()), Ok(*note));
        assert_eq!(parse_note(&note.to_string()), Ok(*note));
    }
    assert_eq!(parse_note("BB"), Ok(Note::ASharp));
    assert_eq!(parse_note("dB"), Ok(Note::CSharp));
}

#[test]
fn every_letter_takes_a_sharp_and_a_flat() {
    assert_eq!(parse_note("E#"), Ok(Note::F));
    assert_eq!(parse_note("B#"), Ok(Note::C));
    assert_eq!(parse_note("Cb"), Ok(Note::B));
    assert_eq!(parse_note("Fb"), Ok(Note::E));
    let naturals = [
        ('c', 0u8),
        ('d', 2),
        ('e', 4),
        ('f', 5),
        ('g', 7),
        ('a', 9),
        ('b', 11),
    ];
    for (letter, base) in naturals.iter() {
        for spelt in [letter.to_string(), letter.to_uppercase().to_string()] {
            assert_eq!(parse_note(&spelt), Ok(Note::from_u8(*base)));
            assert_eq!(
                parse_note(&format!("{}#", spelt)),
                Ok(Note::from_u8((base + 1) % 12))
            );
            assert_eq!(
                parse_note(&format!("{}b", spelt)),
                Ok(Note::from_u8((base + 11) % 12))
            );
            assert_eq!(
                parse_note(&format!("{}B", spelt)),
                Ok(Note::from_u8((base + 11) % 12))
            );
        }
    }
}

#[test]
fn other_text_is_no_note() {
    for text in [
        "", "H", "h#", "#", "b#b", "c##", "cbb", "C ", " C", "do", "c♯", "c♭", "ç", "K", "#c",
        "c-", "cB#", "C♯", "cis",
    ] {
        assert_eq!(
            parse_note(text),
            Err(ParseError::InvalidNote { text: text.to_string() })
        );
    }
    assert_eq!(
        parse_note("H").unwrap_err().message(),
        "Invalid root note: H"
    );
}

#[test]
fn the_numerals_from_one_to_seven() {
    let numerals = [
        ("I", Interval::Unison),
        ("II", Interval::MajorSecond),
        ("III", Interval::MajorThird),
        ("IV", Interval::PerfectFourth),
        ("V", Interval::PerfectFifth),
        ("VI", Interval::MajorSixth),
        ("VII", Interval::MajorSeventh),
    ];
    for (numeral, interval) in numerals.iter() {
        assert_eq!(
            parse_roman_chord(numeral),
            Ok(ParsedRomanChord {
                interval_from_root: *interval,
                chord_type: ChordType::Major,
                degree: numeral.to_string(),
            })
        );
        let lower = numeral.to_lowercase();
        assert_eq!(
            parse_roman_chord(&lower),
            Ok(ParsedRomanChord {
                interval_from_root: *interval,
                chord_type: ChordType::Minor,
                degree: lower.clone(),
            })
        );
    }
}

#[test]
fn the_first_letter_gives_the_case_of_the_numeral() {
    let res = parse_roman_chord("iV").unwrap();
    assert_eq!(res.interval_from_root, Interval::PerfectFourth);
    assert_eq!(res.chord_type, ChordType::Minor);
    let res = parse_roman_chord("Vii7").unwrap();
    assert_eq!(res.interval_from_root, Interval::MajorSeventh);
    assert_eq!(res.chord_type, ChordType::Dominant7);
}

#[test]
fn accidentals_go_round_the_octave() {
    assert_eq!(parse_roman_chord("bI").unwrap().interval_from_root, Interval::MajorSeventh);
    assert_eq!(parse_roman_chord("#VII").unwrap().interval_from_root, Interval::Unison);
    assert_eq!(parse_roman_chord("bVI").unwrap().interval_from_root, Interval::MinorSixth);
    assert_eq!(parse_roman_chord("#i").unwrap().interval_from_root, Interval::MinorSecond);
    assert_eq!(parse_roman_chord("biii").unwrap().interval_from_root, Interval::MinorThird);
    assert_eq!(parse_roman_chord("bVI7").unwrap().degree, "bVI7");
}

#[test]
fn empty_and_foreign_text_have_no_numeral() {
    assert!(parse_roman_chord("").is_err());
    assert!(parse_roman_chord("X").is_err());
    for text in ["", "X", "#", "b", "7", "maj7", "##I", "bbI", " I", "Bv"] {
        assert_eq!(
            parse_roman_chord(text),
            Err(ParseError::InvalidNumeral { input: text.to_string(), numeral: String::new() })
        );
    }
    assert_eq!(
        parse_roman_chord("X").unwrap_err().message(),
        "Invalid roman numeral in 'X': missing numeral"
    );
}

#[test]
fn letters_that_spell_no_numeral_are_reported() {
    for (text, numeral) in [
        ("IIII", "IIII"),
        ("VV", "VV"),
        ("IIV", "IIV"),
        ("bivi7", "ivi"),
        ("#VIIImaj7", "VIII"),
        ("IVi", "IVi"),
        ("vvdim", "vv"),
    ] {
        assert_eq!(
            parse_roman_chord(text),
            Err(ParseError::InvalidNumeral {
                input: text.to_string(),
                numeral: numeral.to_string()
            })
        );
    }
    assert_eq!(
        parse_roman_chord("bivi7").unwrap_err().message(),
        "Invalid roman numeral: ivi"
    );
}

#[test]
fn the_numeral_is_judged_before_the_suffix() {
    assert_eq!(
        parse_roman_chord("IIIIxyz"),
        Err(ParseError::InvalidNumeral {
            input: "IIIIxyz".to_string(),
            numeral: "IIII".to_string()
        })
    );
}

#[test]
fn the_explicit_suffixes() {
    for uppercase in [true, false] {
        assert_eq!(resolve_suffix(uppercase, "maj7"), Some(ChordType::Major7));
        assert_eq!(resolve_suffix(uppercase, "m7"), Some(ChordType::Minor7));
        assert_eq!(resolve_suffix(uppercase, "min7"), Some(ChordType::Minor7));
        assert_eq!(resolve_suffix(uppercase, "dom7"), Some(ChordType::Dominant7));
        assert_eq!(resolve_suffix(uppercase, "dim"), Some(ChordType::Diminished));
        assert_eq!(resolve_suffix(uppercase, "dim7"), Some(ChordType::Diminished7));
        assert_eq!(resolve_suffix(uppercase, "aug"), Some(ChordType::Augmented));
        assert_eq!(resolve_suffix(uppercase, "m7b5"), Some(ChordType::Minor7b5));
    }
    assert_eq!(resolve_suffix(true, ""), Some(ChordType::Major));
    assert_eq!(resolve_suffix(false, ""), Some(ChordType::Minor));
    assert_eq!(resolve_suffix(true, "7"), Some(ChordType::Dominant7));
    assert_eq!(resolve_suffix(false, "7"), Some(ChordType::Minor7));
}

#[test]
fn other_suffixes_are_looked_up_among_the_chord_names() {
    assert_eq!(parse_roman_chord("immaj7").unwrap().chord_type, ChordType::MinorMajor7);
    assert_eq!(parse_roman_chord("im(maj7)").unwrap().chord_type, ChordType::MinorMajor7);
    assert_eq!(parse_roman_chord("IIIaug(maj7)").unwrap().chord_type, ChordType::AugmentedMajor7);
    assert_eq!(parse_roman_chord("IIIaugmaj7").unwrap().chord_type, ChordType::AugmentedMajor7);
    assert_eq!(parse_roman_chord("viihalf-diminished").unwrap().chord_type, ChordType::Minor7b5);
    assert_eq!(parse_roman_chord("Vdominant7").unwrap().chord_type, ChordType::Dominant7);
    assert_eq!(parse_roman_chord("Iminor").unwrap().chord_type, ChordType::Minor);
    assert_eq!(parse_roman_chord("imaj").unwrap().chord_type, ChordType::Major);
    assert_eq!(parse_roman_chord("IMAJ7").unwrap().chord_type, ChordType::Major7);
    assert_eq!(parse_roman_chord("iDim7").unwrap().chord_type, ChordType::Diminished7);
    assert_eq!(parse_roman_chord("IMinor-Major7").unwrap().chord_type, ChordType::MinorMajor7);
    assert_eq!(parse_roman_chord("bVIIM7").unwrap().chord_type, ChordType::Minor7);
}

#[test]
fn a_suffix_that_names_no_quality_is_reported() {
    for (text, suffix) in [
        ("Imaj9", "maj9"),
        ("V77", "77"),
        ("ii ", " "),
        ("IVsus4", "sus4"),
        ("I-", "-"),
        ("I7 ", "7 "),
        ("I°", "°"),
        ("VIſ", "ſ"),
        ("bIIb", "b"),
        ("Ix", "x"),
        ("viimajor 7", "major 7"),
    ] {
        assert_eq!(
            parse_roman_chord(text),
            Err(ParseError::UnknownChordSuffix { suffix: suffix.to_string() })
        );
    }
    assert_eq!(
        parse_roman_chord("Imaj9").unwrap_err().message(),
        "Unknown chord suffix: maj9"
    );
}

#[test]
fn every_chord_name_answers_in_any_case() {
    let names = [
        (ChordType::Major, vec!["major", "maj"]),
        (ChordType::Minor, vec!["minor", "min"]),
        (ChordType::Diminished, vec!["diminished", "dim"]),
        (ChordType::Augmented, vec!["augmented", "aug"]),
        (ChordType::Major7, vec!["major7", "maj7"]),
        (ChordType::Minor7, vec!["minor7", "min7", "m7"]),
        (ChordType::Dominant7, vec!["dominant7", "dom7", "7"]),
        (ChordType::Minor7b5, vec!["minor7b5", "m7b5", "half-diminished"]),
        (ChordType::Diminished7, vec!["diminished7", "dim7"]),
        (ChordType::MinorMajor7, vec!["minor-major7", "mmaj7", "m(maj7)"]),
        (ChordType::AugmentedMajor7, vec!["augmented-major7", "augmaj7", "aug(maj7)"]),
    ];
    for (chord_type, all) in names.iter() {
        assert_eq!(chord_type.name(), all[0]);
        assert_eq!(chord_type.aliases(), all[1..].to_vec());
        for name in all.iter() {
            assert_eq!(ChordType::from_alias(name), Some(*chord_type));
            assert_eq!(ChordType::from_alias(&name.to_uppercase()), Some(*chord_type));
            assert!(chord_type.is_named(name));
        }
    }
    assert!(!ChordType::Major.is_named("minor"));
    assert!(!ChordType::Major.is_named("majo"));
    assert!(!ChordType::Major.is_named(""));
    assert_eq!(ChordType::from_alias("maj9"), None);
    assert_eq!(ChordType::from_alias(""), None);
    assert_eq!(ChordType::from_alias("major "), None);
    // Only ASCII letters lose their case: the long s is no s.
    assert_eq!(ChordType::from_alias("diminiſhed"), None);
}

#[test]
fn a_progression_is_split_at_hyphens_and_spaces() {
    assert_eq!(split_symbols("I-vi-ii-V7"), vec!["I", "vi", "ii", "V7"]);
    assert_eq!(split_symbols("I vi ii V7"), vec!["I", "vi", "ii", "V7"]);
    assert_eq!(split_symbols(" I - vi--ii  V7- "), vec!["I", "vi", "ii", "V7"]);
    assert_eq!(split_symbols("bVII"), vec!["bVII"]);
    assert_eq!(split_symbols("I\tV,ii"), vec!["I\tV,ii"]);
    assert_eq!(split_symbols("I–V"), vec!["I–V"]);
    assert_eq!(split_symbols(""), Vec::<String>::new());
    assert_eq!(split_symbols("- - "), Vec::<String>::new());
}

#[test]
fn a_progression_is_parsed_symbol_by_symbol() {
    let chords = parse_progression("i-bVI bVII7").unwrap();
    assert_eq!(
        chords,
        vec![
            ParsedRomanChord {
                interval_from_root: Interval::Unison,
                chord_type: ChordType::Minor,
                degree: "i".to_string(),
            },
            ParsedRomanChord {
                interval_from_root: Interval::MinorSixth,
                chord_type: ChordType::Major,
                degree: "bVI".to_string(),
            },
            ParsedRomanChord {
                interval_from_root: Interval::MinorSeventh,
                chord_type: ChordType::Dominant7,
                degree: "bVII7".to_string(),
            },
        ]
    );
    assert_eq!(parse_progression(""), Ok(vec![]));
    assert_eq!(parse_progression(" - "), Ok(vec![]));
}

#[test]
fn the_first_bad_symbol_of_a_progression_is_reported() {
    assert_eq!(
        parse_progression("I-IVsus4-X-V7"),
        Err(ParseError::UnknownChordSuffix { suffix: "sus4".to_string() })
    );
    assert_eq!(
        parse_progression("I X IVsus4"),
        Err(ParseError::InvalidNumeral { input: "X".to_string(), numeral: String::new() })
    );
    assert_eq!(
        parse_progression("I,V"),
        Err(ParseError::UnknownChordSuffix { suffix: ",V".to_string() })
    );
}

#[test]
fn parser_test_parse_note_simple() {
    assert_eq!(parse_note("C").unwrap(), Note::C);
    assert_eq!(parse_note("E").unwrap(), Note::E);
}

#[test]
fn parser_test_parse_note_case_insensitive() {
    assert_eq!(parse_note("c").unwrap(), Note::C); // Lower case
    assert_eq!(parse_note("f#").unwrap(), Note::FSharp); // Lowercase sharp
    assert_eq!(parse_note("Db").unwrap(), Note::CSharp); // Capital letter flat
}

#[test]
fn parser_test_parse_note_aliases() {
    assert_eq!(parse_note("C#").unwrap(), Note::CSharp);
    assert_eq!(parse_note("Db").unwrap(), Note::CSharp); // Alias Db -> CSharp
    assert_eq!(parse_note("Eb").unwrap(), Note::DSharp); // Alias Eb -> DSharp
    assert_eq!(parse_note("bb").unwrap(), Note::ASharp); // Alias bb -> ASharp
}

#[test]
fn the_numeral_of_each_degree() {
    let numerals: Vec<&str> = (0..9).map(roman_numeral).collect();
    assert_eq!(numerals, vec!["?", "I", "II", "III", "IV", "V", "VI", "VII", "?"]);
    assert_eq!(roman_numeral(usize::MAX), "?");
    for degree in 1..8 {
        let chord = parse_roman_chord(roman_numeral(degree)).unwrap();
        assert_eq!(
            chord.interval_from_root,
            tonic_music::ScaleType::Major.intervals()[degree - 1]
        );
    }
}

#[test]
fn symbols_are_parsed_up_to_the_first_that_fails() {
    let symbols = |texts: &[&str]| -> Vec<String> { texts.iter().map(|t| t.to_string()).collect() };
    assert_eq!(parse_symbols(&Vec::new()), Ok(vec![]));
    assert_eq!(
        parse_symbols(&symbols(&["I", "bVII7"])),
        Ok(vec![
            ParsedRomanChord {
                interval_from_root: Interval::Unison,
                chord_type: ChordType::Major,
                degree: "I".to_string(),
            },
            ParsedRomanChord {
                interval_from_root: Interval::MinorSeventh,
                chord_type: ChordType::Dominant7,
                degree: "bVII7".to_string(),
            },
        ])
    );
    assert_eq!(
        parse_symbols(&symbols(&["I", "vi", "IVsus4", "X"])),
        Err((2, ParseError::UnknownChordSuffix { suffix: "sus4".to_string() }))
    );
    assert_eq!(
        parse_symbols(&symbols(&["", "I"])),
        Err((0, ParseError::InvalidNumeral { input: String::new(), numeral: String::new() }))
    );
    assert_eq!(
        parse_symbols(&symbols(&["I", "I-V"])),
        Err((1, ParseError::UnknownChordSuffix { suffix: "-V".to_string() }))
    );
}
