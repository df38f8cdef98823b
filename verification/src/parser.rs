//! Reading note names and roman-numeral chord symbols.

use vstd::prelude::*;
use vstd::string::StrSliceExecFns;
use crate::alias::lemma_from_alias_finds_the_owner;
use crate::error::{ParseError, ParseErrorView};
use crate::formula::{ChordType, ScaleType};
use crate::pitch::{lemma_note_index_bijection, spec_transpose, Interval, Note};
use crate::text::{
    ascii_lower, ascii_lowercase, eq_ignore_ascii_case, lemma_eq_ignore_ascii_case, spells,
    to_chars, to_lower_chars,
};

verus! {

/// The parsed components of a roman-numeral chord symbol.
#[derive(Debug, PartialEq, Eq)]
pub struct ParsedRomanChord {
    /// How far the chord's root lies above the tonic.
    pub interval_from_root: Interval,
    pub chord_type: ChordType,
    /// The symbol as it was written.
    pub degree: String,
}

/// What a `ParsedRomanChord` holds, as mathematical values.
pub struct ParsedRomanChordView {
    pub interval_from_root: Interval,
    pub chord_type: ChordType,
    pub degree: Seq<char>,
}

impl View for ParsedRomanChord {
    type V = ParsedRomanChordView;

    open spec fn view(&self) -> ParsedRomanChordView {
        ParsedRomanChordView {
            interval_from_root: self.interval_from_root,
            chord_type: self.chord_type,
            degree: self.degree@,
        }
    }
}

impl ParsedRomanChordView {
    /// Whether the chord is what its own symbol means.
    pub open spec fn well_formed(self) -> bool {
        spec_parse_roman_chord(self.degree) == Ok::<ParsedRomanChordView, ParseErrorView>(self)
    }
}

/// The views of a sequence of parsed chord symbols, in order.
pub open spec fn parsed_views(chords: Seq<ParsedRomanChord>) -> Seq<ParsedRomanChordView> {
    Seq::new(chords.len(), |i: int| chords[i]@)
}

/// The place on the circle of the natural note that a letter in lower case
/// names: `c` is 0, `d` 2, `e` 4, `f` 5, `g` 7, `a` 9 and `b` 11. Any other
/// character names none.
pub open spec fn letter_index(letter: char) -> Option<int> {
    if letter == 'c' {
        Some(0)
    } else if letter == 'd' {
        Some(2)
    } else if letter == 'e' {
        Some(4)
    } else if letter == 'f' {
        Some(5)
    } else if letter == 'g' {
        Some(7)
    } else if letter == 'a' {
        Some(9)
    } else if letter == 'b' {
        Some(11)
    } else {
        None
    }
}

/// The pitch class that a name in lower case stands for: a letter from `a` to
/// `g` gives its natural note; followed by `#` it gives the note one semitone
/// above, and followed by `b` the note one semitone below, going round the
/// circle. So `e#` is F, `cb` is B, `b#` is C. Any other text names no note.
pub open spec fn note_named(name: Seq<char>) -> Option<Note> {
    if name.len() == 1 || name.len() == 2 {
        match letter_index(name[0]) {
            None => None,
            Some(base) => {
                if name.len() == 1 {
                    Some(Note::at(base))
                } else if name[1] == '#' {
                    Some(Note::at((base + 1) % 12))
                } else if name[1] == 'b' {
                    Some(Note::at((base + 11) % 12))
                } else {
                    None
                }
            },
        }
    } else {
        None
    }
}

/// The pitch class that a text names, whatever the case of its letters.
pub open spec fn spec_parse_note(text: Seq<char>) -> Option<Note> {
    note_named(ascii_lowercase(text))
}

/// Finds the place on the circle of the natural note that a letter in lower
/// case names.
fn natural_index(letter: char) -> (index: Option<u8>)
    ensures
        match index {
            Some(base) => letter_index(letter) == Some(base as int) && base < 12,
            None => letter_index(letter) is None,
        },
{
    if letter == 'c' {
        Some(0)
    } else if letter == 'd' {
        Some(2)
    } else if letter == 'e' {
        Some(4)
    } else if letter == 'f' {
        Some(5)
    } else if letter == 'g' {
        Some(7)
    } else if letter == 'a' {
        Some(9)
    } else if letter == 'b' {
        Some(11)
    } else {
        None
    }
}

/// Parses a note name: a letter from A to G in either case, alone or followed
/// by `#` for the note a semitone above or by `b` (in either case) for the
/// note a semitone below. Sharps and flats of one pitch give one note. Any
/// other text is reported as it was given.
pub fn parse_note(s: &str) -> (r: Result<Note, ParseError>)
    ensures
        match spec_parse_note(s@) {
            Some(note) => r == Ok::<Note, ParseError>(note),
            None => r is Err && r->Err_0@ == (ParseErrorView::InvalidNote { text: s@ }),
        },
{
    let name: Vec<char> = to_lower_chars(s);
    let n: usize = name.len();
    if n != 1 && n != 2 {
        return Err(ParseError::InvalidNote { text: s.to_owned() });
    }
    let base: u8 = match natural_index(name[0]) {
        Some(base) => base,
        None => {
            return Err(ParseError::InvalidNote { text: s.to_owned() });
        },
    };
    let index: u8 = if n == 1 {
        base
    } else if name[1] == '#' {
        (base + 1) % 12
    } else if name[1] == 'b' {
        (base + 11) % 12
    } else {
        return Err(ParseError::InvalidNote { text: s.to_owned() });
    };
    Ok(Note::from_u8(index))
}

/// The printed name of every note is read back as that note.
pub proof fn lemma_note_name_is_read_back(note: Note)
    ensures
        spec_parse_note(note.name()) == Some(note),
{
    reveal_strlit("C");
    reveal_strlit("C#");
    reveal_strlit("D");
    reveal_strlit("D#");
    reveal_strlit("E");
    reveal_strlit("F");
    reveal_strlit("F#");
    reveal_strlit("G");
    reveal_strlit("G#");
    reveal_strlit("A");
    reveal_strlit("A#");
    reveal_strlit("B");
    let lower = ascii_lowercase(note.name());
    assert(lower.len() == note.name().len());
    assert(lower[0] == ascii_lower(note.name()[0]));
    if note.name().len() == 2 {
        assert(lower[1] == ascii_lower(note.name()[1]));
    }
}

/// A sharp names the note one semitone above the letter's natural note and a
/// flat the note one semitone below it, whatever the letter: every letter
/// from A to G takes both.
pub proof fn lemma_accidentals_move_by_a_semitone(letter: char)
    requires
        letter_index(ascii_lower(letter)) is Some,
    ensures
        spec_parse_note(seq![letter]) is Some,
        spec_parse_note(seq![letter, '#']) == Some(
            spec_transpose(spec_parse_note(seq![letter])->0, Interval::MinorSecond),
        ),
        spec_parse_note(seq![letter, 'b']) == spec_parse_note(seq![letter, 'B']),
        spec_parse_note(seq![letter, 'b']) == Some(
            spec_transpose(spec_parse_note(seq![letter])->0, Interval::MajorSeventh),
        ),
{
    let base = letter_index(ascii_lower(letter))->0;
    lemma_note_index_bijection(Note::C, base);
    let natural = ascii_lowercase(seq![letter]);
    let sharp = ascii_lowercase(seq![letter, '#']);
    let flat = ascii_lowercase(seq![letter, 'b']);
    let capital_flat = ascii_lowercase(seq![letter, 'B']);
    assert(natural.len() == 1 && natural[0] == ascii_lower(letter));
    assert(sharp.len() == 2 && sharp[0] == ascii_lower(letter) && sharp[1] == '#');
    assert(flat.len() == 2 && flat[0] == ascii_lower(letter) && flat[1] == 'b');
    assert(capital_flat =~= flat);
}

/// Whether a character is one of the letters that roman numerals up to seven
/// are written with, in either case.
pub open spec fn is_numeral_letter(c: char) -> bool {
    c == 'i' || c == 'I' || c == 'v' || c == 'V'
}

/// The number of characters that the accidental at the head of a chord symbol
/// takes: one for `#` or `b`, none otherwise.
pub open spec fn accidental_len(input: Seq<char>) -> int {
    if input.len() > 0 && (input[0] == '#' || input[0] == 'b') {
        1
    } else {
        0
    }
}

/// The semitones by which the accidental at the head of a chord symbol moves
/// the chord's root: one up for `#`, one down for `b`.
pub open spec fn accidental_offset(input: Seq<char>) -> int {
    if input.len() > 0 && input[0] == '#' {
        1
    } else if input.len() > 0 && input[0] == 'b' {
        -1
    } else {
        0
    }
}

/// The length of the longest run of numeral letters at the head of `text`.
pub open spec fn numeral_len(text: Seq<char>) -> int
    decreases text.len(),
{
    if text.len() > 0 && is_numeral_letter(text[0]) {
        1 + numeral_len(text.drop_first())
    } else {
        0
    }
}

/// A numeral letter in upper case.
pub open spec fn upper_numeral_letter(c: char) -> char {
    if c == 'i' {
        'I'
    } else if c == 'v' {
        'V'
    } else {
        c
    }
}

/// A run of numeral letters in upper case.
pub open spec fn upper_numeral(numeral: Seq<char>) -> Seq<char> {
    Seq::new(numeral.len(), |i: int| upper_numeral_letter(numeral[i]))
}

/// The scale degree, from 1 to 7, that a run of numeral letters spells in
/// either case, if it spells one.
pub open spec fn numeral_degree(numeral: Seq<char>) -> Option<int> {
    let upper = upper_numeral(numeral);
    if upper == "I"@ {
        Some(1)
    } else if upper == "II"@ {
        Some(2)
    } else if upper == "III"@ {
        Some(3)
    } else if upper == "IV"@ {
        Some(4)
    } else if upper == "V"@ {
        Some(5)
    } else if upper == "VI"@ {
        Some(6)
    } else if upper == "VII"@ {
        Some(7)
    } else {
        None
    }
}

/// The numeral that a scale degree from 1 to 7 is written with, in upper
/// case; any other number is written `?`.
pub open spec fn spec_roman_numeral(degree: int) -> Seq<char> {
    if degree == 1 {
        "I"@
    } else if degree == 2 {
        "II"@
    } else if degree == 3 {
        "III"@
    } else if degree == 4 {
        "IV"@
    } else if degree == 5 {
        "V"@
    } else if degree == 6 {
        "VI"@
    } else if degree == 7 {
        "VII"@
    } else {
        "?"@
    }
}

/// Returns the numeral that a scale degree from 1 to 7 is written with, and
/// `?` for any other number.
pub fn roman_numeral(degree: usize) -> (numeral: &'static str)
    ensures
        numeral@ == spec_roman_numeral(degree as int),
{
    match degree {
        1 => "I",
        2 => "II",
        3 => "III",
        4 => "IV",
        5 => "V",
        6 => "VI",
        7 => "VII",
        _ => "?",
    }
}

/// The interval from the tonic to the root of the chord on scale degree
/// `degree`, moved by `offset` semitones: the degree's interval in the major
/// scale, raised or lowered, and taken round the octave.
pub open spec fn degree_interval(degree: int, offset: int) -> Interval
    recommends
        1 <= degree <= 7,
        -1 <= offset <= 1,
{
    Interval::of((ScaleType::Major.formula()[degree - 1].semitones() + offset + 12) % 12)
}

/// The chord quality that a suffix gives to a numeral in upper or in lower
/// case, if the suffix is known. No suffix gives the triad of the numeral's
/// case, and `7` its seventh chord; the suffixes that follow give their
/// quality whatever the numeral's case; any other suffix is looked up among
/// the names of the chord types.
pub open spec fn spec_resolve_suffix(uppercase: bool, suffix: Seq<char>) -> Option<ChordType> {
    if suffix.len() == 0 {
        Some(
            if uppercase {
                ChordType::Major
            } else {
                ChordType::Minor
            },
        )
    } else if suffix == "7"@ {
        Some(
            if uppercase {
                ChordType::Dominant7
            } else {
                ChordType::Minor7
            },
        )
    } else if suffix == "maj7"@ {
        Some(ChordType::Major7)
    } else if suffix == "m7"@ || suffix == "min7"@ {
        Some(ChordType::Minor7)
    } else if suffix == "dom7"@ {
        Some(ChordType::Dominant7)
    } else if suffix == "dim"@ {
        Some(ChordType::Diminished)
    } else if suffix == "dim7"@ {
        Some(ChordType::Diminished7)
    } else if suffix == "aug"@ {
        Some(ChordType::Augmented)
    } else if suffix == "m7b5"@ {
        Some(ChordType::Minor7b5)
    } else {
        ChordType::spec_from_alias(suffix)
    }
}

/// What a chord symbol means: an optional accidental, then the longest run of
/// numeral letters, then the suffix. The run must spell a numeral from I to
/// VII; the case of its first letter is the numeral's case.
pub open spec fn spec_parse_roman_chord(input: Seq<char>) -> Result<
    ParsedRomanChordView,
    ParseErrorView,
> {
    let start = accidental_len(input);
    let end = start + numeral_len(input.skip(start));
    let numeral = input.subrange(start, end);
    let suffix = input.skip(end);
    match numeral_degree(numeral) {
        None => Err(ParseErrorView::InvalidNumeral { input, numeral }),
        Some(degree) => match spec_resolve_suffix(numeral[0] == 'I' || numeral[0] == 'V', suffix) {
            None => Err(ParseErrorView::UnknownChordSuffix { suffix }),
            Some(chord_type) => Ok(
                ParsedRomanChordView {
                    interval_from_root: degree_interval(degree, accidental_offset(input)),
                    chord_type,
                    degree: input,
                },
            ),
        },
    }
}

/// Each suffix that the parser knows by itself is a name of the chord type it
/// gives. So, but for no suffix and for `7`, which go by the numeral's case, a
/// suffix gives a chord type exactly if it is one of that type's names,
/// whatever the case of its letters.
pub proof fn lemma_suffixes_are_chord_names(
    uppercase: bool,
    suffix: Seq<char>,
    chord_type: ChordType,
)
    requires
        suffix.len() > 0,
        suffix != "7"@,
    ensures
        spec_resolve_suffix(uppercase, suffix) == ChordType::spec_from_alias(suffix),
        spec_resolve_suffix(uppercase, suffix) == Some(chord_type) <==> chord_type.answers_to(
            suffix,
        ),
{
    lemma_own_name_is_found(ChordType::Major7, 1, "maj7"@);
    lemma_own_name_is_found(ChordType::Minor7, 2, "m7"@);
    lemma_own_name_is_found(ChordType::Minor7, 1, "min7"@);
    lemma_own_name_is_found(ChordType::Dominant7, 1, "dom7"@);
    lemma_own_name_is_found(ChordType::Diminished, 1, "dim"@);
    lemma_own_name_is_found(ChordType::Diminished7, 1, "dim7"@);
    lemma_own_name_is_found(ChordType::Augmented, 1, "aug"@);
    lemma_own_name_is_found(ChordType::Minor7b5, 1, "m7b5"@);
    lemma_from_alias_finds_the_owner(suffix, chord_type);
}

/// A name of a chord type, as it is written in the catalog, finds that type.
proof fn lemma_own_name_is_found(chord_type: ChordType, i: int, name: Seq<char>)
    requires
        0 <= i < chord_type.names().len(),
        chord_type.names()[i] == name,
    ensures
        ChordType::spec_from_alias(name) == Some(chord_type),
{
    lemma_eq_ignore_ascii_case(name, name);
    assert(eq_ignore_ascii_case(chord_type.names()[i], name));
    lemma_from_alias_finds_the_owner(name, chord_type);
}

/// The outcome of parsing a chord symbol, as mathematical values.
pub open spec fn roman_outcome(r: Result<ParsedRomanChord, ParseError>) -> Result<
    ParsedRomanChordView,
    ParseErrorView,
> {
    match r {
        Ok(chord) => Ok(chord@),
        Err(error) => Err(error@),
    }
}

/// The run of numeral letters at the head of a text ends at the first
/// character that is no numeral letter, or with the text.
pub proof fn lemma_numeral_len(text: Seq<char>)
    ensures
        0 <= numeral_len(text) <= text.len(),
        forall|i: int| 0 <= i < numeral_len(text) ==> is_numeral_letter(#[trigger] text[i]),
        numeral_len(text) < text.len() ==> !is_numeral_letter(text[numeral_len(text)]),
    decreases text.len(),
{
    if text.len() > 0 && is_numeral_letter(text[0]) {
        let rest = text.drop_first();
        lemma_numeral_len(rest);
        assert forall|i: int| 0 <= i < numeral_len(text) implies is_numeral_letter(
            #[trigger] text[i],
        ) by {
            if i > 0 {
                assert(text[i] == rest[i - 1]);
            }
        }
        if numeral_len(text) < text.len() {
            assert(text[numeral_len(text)] == rest[numeral_len(rest)]);
        }
    }
}

/// A run of numeral letters that ends with the text, or before a character
/// that is no numeral letter, is the longest at the head of the text.
pub proof fn lemma_numeral_len_is(text: Seq<char>, run: int)
    requires
        0 <= run <= text.len(),
        forall|i: int| 0 <= i < run ==> is_numeral_letter(#[trigger] text[i]),
        run < text.len() ==> !is_numeral_letter(text[run]),
    ensures
        numeral_len(text) == run,
{
    lemma_numeral_len(text);
    let found = numeral_len(text);
    if found < run {
        assert(is_numeral_letter(text[found]));
    } else if run < found {
        assert(is_numeral_letter(text[run]));
    }
}

/// Finds where the run of numeral letters that starts at `start` ends.
fn scan_numeral(chars: &Vec<char>, start: usize) -> (end: usize)
    requires
        start <= chars@.len(),
    ensures
        start <= end <= chars@.len(),
        end == start + numeral_len(chars@.skip(start as int)),
{
    let mut end: usize = start;
    while end < chars.len() && (chars[end] == 'i' || chars[end] == 'I' || chars[end] == 'v'
        || chars[end] == 'V')
        invariant
            start <= end <= chars@.len(),
            numeral_len(chars@.skip(start as int)) == (end - start) + numeral_len(
                chars@.skip(end as int),
            ),
        decreases chars@.len() - end,
    {
        assert(chars@.skip(end as int).drop_first() =~= chars@.skip(end + 1));
        end += 1;
    }
    end
}

/// The scale degree that a run of numeral letters spells, read letter by
/// letter: one, two or three letters, each an I or a V in either case.
pub proof fn lemma_numeral_degree_by_letters(numeral: Seq<char>)
    ensures
        numeral_degree(numeral) == (if numeral.len() == 1 {
            if upper_numeral_letter(numeral[0]) == 'I' {
                Some(1int)
            } else if upper_numeral_letter(numeral[0]) == 'V' {
                Some(5int)
            } else {
                None
            }
        } else if numeral.len() == 2 {
            if upper_numeral_letter(numeral[0]) == 'I' && upper_numeral_letter(numeral[1]) == 'I' {
                Some(2int)
            } else if upper_numeral_letter(numeral[0]) == 'I' && upper_numeral_letter(numeral[1])
                == 'V' {
                Some(4int)
            } else if upper_numeral_letter(numeral[0]) == 'V' && upper_numeral_letter(numeral[1])
                == 'I' {
                Some(6int)
            } else {
                None
            }
        } else if numeral.len() == 3 {
            if upper_numeral_letter(numeral[1]) == 'I' && upper_numeral_letter(numeral[2]) == 'I' {
                if upper_numeral_letter(numeral[0]) == 'I' {
                    Some(3int)
                } else if upper_numeral_letter(numeral[0]) == 'V' {
                    Some(7int)
                } else {
                    None
                }
            } else {
                None
            }
        } else {
            None
        }),
{
    reveal_strlit("I");
    reveal_strlit("II");
    reveal_strlit("III");
    reveal_strlit("IV");
    reveal_strlit("V");
    reveal_strlit("VI");
    reveal_strlit("VII");
    let upper = upper_numeral(numeral);
    assert(upper.len() == numeral.len());
    if numeral.len() == 1 {
        assert(upper[0] == upper_numeral_letter(numeral[0]));
        assert(upper_numeral_letter(numeral[0]) == 'I' ==> upper =~= "I"@);
        assert(upper_numeral_letter(numeral[0]) == 'V' ==> upper =~= "V"@);
        assert(upper == "I"@ ==> upper[0] == "I"@[0]);
        assert(upper == "V"@ ==> upper[0] == "V"@[0]);
    } else if numeral.len() == 2 {
        assert(upper[0] == upper_numeral_letter(numeral[0]));
        assert(upper[1] == upper_numeral_letter(numeral[1]));
        assert(upper[0] == 'I' && upper[1] == 'I' ==> upper =~= "II"@);
        assert(upper[0] == 'I' && upper[1] == 'V' ==> upper =~= "IV"@);
        assert(upper[0] == 'V' && upper[1] == 'I' ==> upper =~= "VI"@);
        assert(upper == "II"@ ==> upper[0] == "II"@[0] && upper[1] == "II"@[1]);
        assert(upper == "IV"@ ==> upper[0] == "IV"@[0] && upper[1] == "IV"@[1]);
        assert(upper == "VI"@ ==> upper[0] == "VI"@[0] && upper[1] == "VI"@[1]);
    } else if numeral.len() == 3 {
        assert(upper[0] == upper_numeral_letter(numeral[0]));
        assert(upper[1] == upper_numeral_letter(numeral[1]));
        assert(upper[2] == upper_numeral_letter(numeral[2]));
        assert(upper[0] == 'I' && upper[1] == 'I' && upper[2] == 'I' ==> upper =~= "III"@);
        assert(upper[0] == 'V' && upper[1] == 'I' && upper[2] == 'I' ==> upper =~= "VII"@);
        assert(upper == "III"@ ==> upper[0] == "III"@[0] && upper[1] == "III"@[1] && upper[2]
            == "III"@[2]);
        assert(upper == "VII"@ ==> upper[0] == "VII"@[0] && upper[1] == "VII"@[1] && upper[2]
            == "VII"@[2]);
    }
}

/// The numeral of each scale degree spells that degree, and `?` spells none.
pub proof fn lemma_numeral_spells_its_degree(degree: int)
    ensures
        1 <= degree <= 7 ==> numeral_degree(spec_roman_numeral(degree)) == Some(degree),
        !(1 <= degree <= 7) ==> numeral_degree(spec_roman_numeral(degree)) is None,
{
    reveal_strlit("I");
    reveal_strlit("II");
    reveal_strlit("III");
    reveal_strlit("IV");
    reveal_strlit("V");
    reveal_strlit("VI");
    reveal_strlit("VII");
    reveal_strlit("?");
    lemma_numeral_degree_by_letters(spec_roman_numeral(degree));
}

/// Reads the scale degree that the numeral letters from `start` up to `end`
/// spell.
fn read_numeral(chars: &Vec<char>, start: usize, end: usize) -> (degree: Option<u8>)
    requires
        start <= end <= chars@.len(),
    ensures
        match degree {
            Some(d) => numeral_degree(chars@.subrange(start as int, end as int)) == Some(d as int)
                && 1 <= d <= 7,
            None => numeral_degree(chars@.subrange(start as int, end as int)) is None,
        },
{
    proof {
        lemma_numeral_degree_by_letters(chars@.subrange(start as int, end as int));
    }
    let len: usize = end - start;
    if len == 1 {
        let a: char = chars[start];
        if a == 'I' || a == 'i' {
            Some(1)
        } else if a == 'V' || a == 'v' {
            Some(5)
        } else {
            None
        }
    } else if len == 2 {
        let a: char = chars[start];
        let b: char = chars[start + 1];
        if (a == 'I' || a == 'i') && (b == 'I' || b == 'i') {
            Some(2)
        } else if (a == 'I' || a == 'i') && (b == 'V' || b == 'v') {
            Some(4)
        } else if (a == 'V' || a == 'v') && (b == 'I' || b == 'i') {
            Some(6)
        } else {
            None
        }
    } else if len == 3 {
        let a: char = chars[start];
        let b: char = chars[start + 1];
        let c: char = chars[start + 2];
        if (a == 'I' || a == 'i') && (b == 'I' || b == 'i') && (c == 'I' || c == 'i') {
            Some(3)
        } else if (a == 'V' || a == 'v') && (b == 'I' || b == 'i') && (c == 'I' || c == 'i') {
            Some(7)
        } else {
            None
        }
    } else {
        None
    }
}

/// Finds the interval from the tonic to the root of the chord on a scale
/// degree, raised by a sharp or lowered by a flat.
fn interval_of_degree(degree: u8, sharp: bool, flat: bool) -> (interval: Interval)
    requires
        1 <= degree <= 7,
        !(sharp && flat),
    ensures
        interval == degree_interval(
            degree as int,
            if sharp {
                1int
            } else if flat {
                -1int
            } else {
                0int
            },
        ),
{
    let major: &'static [Interval] = ScaleType::Major.intervals();
    let semitones: u8 = major[(degree - 1) as usize].as_u8();
    let moved: u8 = if sharp {
        semitones + 13
    } else if flat {
        semitones + 11
    } else {
        semitones + 12
    };
    Interval::from_u8(moved % 12)
}

/// Finds the chord quality that a suffix gives to a numeral in upper or in
/// lower case, or nothing if the suffix is not known.
pub fn resolve_suffix(uppercase: bool, suffix: &str) -> (chord_type: Option<ChordType>)
    ensures
        chord_type == spec_resolve_suffix(uppercase, suffix@),
{
    let chars: Vec<char> = to_chars(suffix);
    if chars.len() == 0 {
        Some(
            if uppercase {
                ChordType::Major
            } else {
                ChordType::Minor
            },
        )
    } else if spells(&chars, "7") {
        Some(
            if uppercase {
                ChordType::Dominant7
            } else {
                ChordType::Minor7
            },
        )
    } else if spells(&chars, "maj7") {
        Some(ChordType::Major7)
    } else if spells(&chars, "m7") || spells(&chars, "min7") {
        Some(ChordType::Minor7)
    } else if spells(&chars, "dom7") {
        Some(ChordType::Dominant7)
    } else if spells(&chars, "dim") {
        Some(ChordType::Diminished)
    } else if spells(&chars, "dim7") {
        Some(ChordType::Diminished7)
    } else if spells(&chars, "aug") {
        Some(ChordType::Augmented)
    } else if spells(&chars, "m7b5") {
        Some(ChordType::Minor7b5)
    } else {
        ChordType::from_alias(suffix)
    }
}

/// Parses a roman-numeral chord symbol such as "IV", "vii" or "bVI7": an
/// optional `#` or `b`, a numeral from I to VII in either case, and an
/// optional suffix that names the chord's quality. A symbol without a valid
/// numeral is reported with the numeral letters that were found; a suffix that
/// names no quality is reported by itself.
pub fn parse_roman_chord(input: &str) -> (r: Result<ParsedRomanChord, ParseError>)
    ensures
        roman_outcome(r) == spec_parse_roman_chord(input@),
        r is Ok ==> r->Ok_0@.well_formed() && r->Ok_0.degree@ == input@,
{
    let chars: Vec<char> = to_chars(input);
    let n: usize = chars.len();

    let sharp: bool = n > 0 && chars[0] == '#';
    let flat: bool = n > 0 && chars[0] == 'b';
    let start: usize = if sharp || flat {
        1
    } else {
        0
    };
    let end: usize = scan_numeral(&chars, start);
    let ghost numeral = input@.subrange(start as int, end as int);

    let degree: u8 = match read_numeral(&chars, start, end) {
        Some(degree) => degree,
        None => {
            return Err(
                ParseError::InvalidNumeral {
                    input: input.to_owned(),
                    numeral: input.substring_char(start, end).to_owned(),
                },
            );
        },
    };
    proof {
        lemma_numeral_degree_by_letters(numeral);
        assert(numeral[0] == chars@[start as int]);
    }
    let uppercase: bool = chars[start] == 'I' || chars[start] == 'V';
    let interval: Interval = interval_of_degree(degree, sharp, flat);

    let suffix: &str = input.substring_char(end, n);
    assert(suffix@ =~= input@.skip(end as int));
    match resolve_suffix(uppercase, suffix) {
        Some(chord_type) => Ok(
            ParsedRomanChord { interval_from_root: interval, chord_type, degree: input.to_owned() },
        ),
        None => Err(ParseError::UnknownChordSuffix { suffix: suffix.to_owned() }),
    }
}

/// Whether a character stands between the chord symbols of a progression: a
/// hyphen or a space.
pub open spec fn is_separator(c: char) -> bool {
    c == '-' || c == ' '
}

/// The length of the longest run of characters at the head of `text` that
/// are no separators.
pub open spec fn symbol_len(text: Seq<char>) -> int
    decreases text.len(),
{
    if text.len() > 0 && !is_separator(text[0]) {
        1 + symbol_len(text.drop_first())
    } else {
        0
    }
}

/// The chord symbols that a progression is written with: the longest runs of
/// characters between separators, in order. Separators side by side, or at
/// either end, hold no symbol between them.
pub open spec fn spec_split_symbols(text: Seq<char>) -> Seq<Seq<char>>
    decreases text.len(),
    via spec_split_symbols_decreases
{
    if text.len() == 0 {
        Seq::empty()
    } else if is_separator(text[0]) {
        spec_split_symbols(text.drop_first())
    } else {
        seq![text.take(symbol_len(text))] + spec_split_symbols(text.skip(symbol_len(text)))
    }
}

/// The text after a symbol is shorter than the text that starts with it.
#[via_fn]
proof fn spec_split_symbols_decreases(text: Seq<char>) {
    if text.len() > 0 && !is_separator(text[0]) {
        lemma_symbol_len(text);
    }
}

/// A run of characters that are no separators ends at the first separator, or
/// with the text.
pub proof fn lemma_symbol_len(text: Seq<char>)
    ensures
        0 <= symbol_len(text) <= text.len(),
        text.len() > 0 && !is_separator(text[0]) ==> symbol_len(text) > 0,
        forall|i: int| 0 <= i < symbol_len(text) ==> !is_separator(#[trigger] text[i]),
        symbol_len(text) < text.len() ==> is_separator(text[symbol_len(text)]),
    decreases text.len(),
{
    if text.len() > 0 && !is_separator(text[0]) {
        let rest = text.drop_first();
        lemma_symbol_len(rest);
        assert forall|i: int| 0 <= i < symbol_len(text) implies !is_separator(
            #[trigger] text[i],
        ) by {
            if i > 0 {
                assert(text[i] == rest[i - 1]);
            }
        }
        if symbol_len(text) < text.len() {
            assert(text[symbol_len(text)] == rest[symbol_len(rest)]);
        }
    }
}

/// Every chord symbol of a progression has a character, and none has a
/// separator in it.
pub proof fn lemma_symbols_hold_no_separator(text: Seq<char>, k: int)
    requires
        0 <= k < spec_split_symbols(text).len(),
    ensures
        spec_split_symbols(text)[k].len() > 0,
        forall|i: int|
            0 <= i < spec_split_symbols(text)[k].len() ==> !is_separator(
                #[trigger] spec_split_symbols(text)[k][i],
            ),
    decreases text.len(),
{
    if text.len() == 0 {
    } else if is_separator(text[0]) {
        lemma_symbols_hold_no_separator(text.drop_first(), k);
    } else {
        lemma_symbol_len(text);
        if k > 0 {
            lemma_symbols_hold_no_separator(text.skip(symbol_len(text)), k - 1);
        }
    }
}

/// What each of the given texts holds, in order.
pub open spec fn string_views(texts: Seq<String>) -> Seq<Seq<char>> {
    Seq::new(texts.len(), |i: int| texts[i]@)
}

/// Splits the text of a progression into its chord symbols: what stands
/// between hyphens and spaces, in order, without what is empty.
pub fn split_symbols(formula: &str) -> (symbols: Vec<String>)
    ensures
        string_views(symbols@) == spec_split_symbols(formula@),
{
    let chars: Vec<char> = to_chars(formula);
    let n: usize = chars.len();
    let mut symbols: Vec<String> = Vec::new();
    let mut i: usize = 0;
    assert(chars@.skip(0) =~= chars@);
    assert(string_views(symbols@) + spec_split_symbols(chars@.skip(0)) =~= spec_split_symbols(
        chars@,
    ));
    while i < n
        invariant
            i <= n,
            n == chars@.len(),
            chars@ == formula@,
            spec_split_symbols(chars@) == string_views(symbols@) + spec_split_symbols(
                chars@.skip(i as int),
            ),
        decreases n - i,
    {
        let ghost rest = chars@.skip(i as int);
        if chars[i] == '-' || chars[i] == ' ' {
            assert(rest.drop_first() =~= chars@.skip(i + 1));
            i += 1;
        } else {
            let start: usize = i;
            let mut end: usize = i + 1;
            assert(rest.drop_first() =~= chars@.skip(end as int));
            while end < n && chars[end] != '-' && chars[end] != ' '
                invariant
                    start < end <= n,
                    n == chars@.len(),
                    symbol_len(chars@.skip(start as int)) == (end - start) + symbol_len(
                        chars@.skip(end as int),
                    ),
                decreases n - end,
            {
                assert(chars@.skip(end as int).drop_first() =~= chars@.skip(end + 1));
                end += 1;
            }
            let ghost found = string_views(symbols@);
            symbols.push(formula.substring_char(start, end).to_owned());
            proof {
                assert(symbol_len(rest) == end - start);
                assert(rest.take(end - start) =~= chars@.subrange(start as int, end as int));
                assert(rest.skip(end - start) =~= chars@.skip(end as int));
                assert(string_views(symbols@) =~= found + seq![rest.take(end - start)]);
                assert(found + (seq![rest.take(end - start)] + spec_split_symbols(
                    chars@.skip(end as int),
                )) =~= string_views(symbols@) + spec_split_symbols(chars@.skip(end as int)));
            }
            i = end;
        }
    }
    assert(chars@.skip(i as int).len() == 0);
    assert(string_views(symbols@) + Seq::<Seq<char>>::empty() =~= string_views(symbols@));
    symbols
}

/// What a sequence of chord symbols means: the chords of all of them in
/// order, or the error of the first that is no chord symbol.
pub open spec fn spec_parse_symbols(symbols: Seq<Seq<char>>) -> Result<
    Seq<ParsedRomanChordView>,
    ParseErrorView,
>
    decreases symbols.len(),
{
    if symbols.len() == 0 {
        Ok(Seq::empty())
    } else {
        match spec_parse_symbols(symbols.drop_last()) {
            Err(error) => Err(error),
            Ok(chords) => match spec_parse_roman_chord(symbols.last()) {
                Err(error) => Err(error),
                Ok(chord) => Ok(chords.push(chord)),
            },
        }
    }
}

/// What the text of a progression means: the chords of its symbols.
pub open spec fn spec_parse_progression(text: Seq<char>) -> Result<
    Seq<ParsedRomanChordView>,
    ParseErrorView,
> {
    spec_parse_symbols(spec_split_symbols(text))
}

/// The outcome of parsing a progression, as mathematical values.
pub open spec fn progression_outcome(r: Result<Vec<ParsedRomanChord>, ParseError>) -> Result<
    Seq<ParsedRomanChordView>,
    ParseErrorView,
> {
    match r {
        Ok(chords) => Ok(parsed_views(chords@)),
        Err(error) => Err(error@),
    }
}

/// Symbols that are all chord symbols give the chord of each, in order. Where
/// one is not, the error is that of the first such symbol.
pub proof fn lemma_parse_symbols(symbols: Seq<Seq<char>>)
    ensures
        match spec_parse_symbols(symbols) {
            Ok(chords) => chords.len() == symbols.len() && forall|i: int|
                0 <= i < symbols.len() ==> spec_parse_roman_chord(#[trigger] symbols[i]) == Ok::<
                    ParsedRomanChordView,
                    ParseErrorView,
                >(chords[i]),
            Err(error) => exists|k: int|
                0 <= k < symbols.len() && spec_parse_roman_chord(#[trigger] symbols[k]) == Err::<
                    ParsedRomanChordView,
                    ParseErrorView,
                >(error) && forall|i: int|
                    0 <= i < k ==> (#[trigger] spec_parse_roman_chord(symbols[i])) is Ok,
        },
    decreases symbols.len(),
{
    if symbols.len() > 0 {
        let earlier = symbols.drop_last();
        lemma_parse_symbols(earlier);
        match spec_parse_symbols(earlier) {
            Err(error) => {
                let k = choose|k: int|
                    0 <= k < earlier.len() && spec_parse_roman_chord(#[trigger] earlier[k]) == Err::<
                        ParsedRomanChordView,
                        ParseErrorView,
                    >(error) && forall|i: int|
                        0 <= i < k ==> (#[trigger] spec_parse_roman_chord(earlier[i])) is Ok;
                assert(symbols[k] == earlier[k]);
                assert forall|i: int| 0 <= i < k implies (#[trigger] spec_parse_roman_chord(
                    symbols[i],
                )) is Ok by {
                    assert(symbols[i] == earlier[i]);
                    assert(spec_parse_roman_chord(earlier[i]) is Ok);
                }
            },
            Ok(chords) => {
                let last = symbols.len() - 1;
                assert forall|i: int| 0 <= i < last implies (#[trigger] spec_parse_roman_chord(
                    symbols[i],
                )) is Ok by {
                    assert(symbols[i] == earlier[i]);
                }
                match spec_parse_roman_chord(symbols.last()) {
                    Err(error) => {
                        assert(spec_parse_roman_chord(symbols[last]) == Err::<
                            ParsedRomanChordView,
                            ParseErrorView,
                        >(error));
                    },
                    Ok(chord) => {
                        assert forall|i: int| 0 <= i < symbols.len() implies spec_parse_roman_chord(
                            #[trigger] symbols[i],
                        ) == Ok::<ParsedRomanChordView, ParseErrorView>(chords.push(chord)[i]) by {
                            if i < last {
                                assert(symbols[i] == earlier[i]);
                            }
                        }
                    },
                }
            },
        }
    }
}

/// Parses chord symbols one after the other. Where all are chord symbols,
/// the chord of each is returned, in order. Otherwise the work ends at the
/// first that is none, and its place is returned with its error.
pub fn parse_symbols(symbols: &Vec<String>) -> (r: Result<
    Vec<ParsedRomanChord>,
    (usize, ParseError),
>)
    ensures
        match r {
            Ok(chords) => {
                &&& spec_parse_symbols(string_views(symbols@)) == Ok::<
                    Seq<ParsedRomanChordView>,
                    ParseErrorView,
                >(parsed_views(chords@))
                &&& chords@.len() == symbols@.len()
                &&& forall|i: int|
                    0 <= i < chords@.len() ==> (#[trigger] chords@[i])@.well_formed()
            },
            Err((k, error)) => {
                &&& k < symbols@.len()
                &&& spec_parse_roman_chord(symbols@[k as int]@) == Err::<
                    ParsedRomanChordView,
                    ParseErrorView,
                >(error@)
                &&& forall|j: int|
                    0 <= j < k ==> spec_parse_roman_chord((#[trigger] symbols@[j])@) is Ok
                &&& spec_parse_symbols(string_views(symbols@)) == Err::<
                    Seq<ParsedRomanChordView>,
                    ParseErrorView,
                >(error@)
            },
        },
{
    let ghost texts = string_views(symbols@);
    let mut chords: Vec<ParsedRomanChord> = Vec::new();
    let mut i: usize = 0;
    assert(texts.take(0) =~= Seq::<Seq<char>>::empty());
    assert(parsed_views(chords@) =~= Seq::<ParsedRomanChordView>::empty());
    while i < symbols.len()
        invariant
            i <= symbols@.len(),
            chords@.len() == i,
            texts == string_views(symbols@),
            forall|j: int| 0 <= j < i ==> (#[trigger] chords@[j])@.well_formed(),
            forall|j: int| 0 <= j < i ==> spec_parse_roman_chord((#[trigger] symbols@[j])@) is Ok,
            spec_parse_symbols(texts.take(i as int)) == Ok::<
                Seq<ParsedRomanChordView>,
                ParseErrorView,
            >(parsed_views(chords@)),
        decreases symbols@.len() - i,
    {
        let ghost before = parsed_views(chords@);
        proof {
            assert(texts.take(i + 1).drop_last() =~= texts.take(i as int));
            assert(texts.take(i + 1).last() == symbols@[i as int]@);
        }
        match parse_roman_chord(symbols[i].as_str()) {
            Ok(chord) => {
                chords.push(chord);
                assert(parsed_views(chords@) =~= before.push(chords@[i as int]@));
            },
            Err(error) => {
                proof {
                    lemma_parse_fails_from(texts, i + 1);
                }
                return Err((i, error));
            },
        }
        i += 1;
    }
    assert(texts.take(i as int) =~= texts);
    Ok(chords)
}

/// Parses the text of a progression: chord symbols with hyphens or spaces
/// between them. The symbols are parsed in order, and the first that is no
/// chord symbol ends the work with its error.
pub fn parse_progression(formula: &str) -> (r: Result<Vec<ParsedRomanChord>, ParseError>)
    ensures
        progression_outcome(r) == spec_parse_progression(formula@),
        r is Ok ==> forall|i: int|
            0 <= i < r->Ok_0@.len() ==> (#[trigger] r->Ok_0@[i])@.well_formed(),
{
    let symbols: Vec<String> = split_symbols(formula);
    match parse_symbols(&symbols) {
        Ok(chords) => Ok(chords),
        Err((_, error)) => Err(error),
    }
}

/// Once the first `n` symbols have failed, all of them fail alike.
proof fn lemma_parse_fails_from(symbols: Seq<Seq<char>>, n: int)
    requires
        0 <= n <= symbols.len(),
        spec_parse_symbols(symbols.take(n)) is Err,
    ensures
        spec_parse_symbols(symbols) == spec_parse_symbols(symbols.take(n)),
    decreases symbols.len() - n,
{
    if n < symbols.len() {
        assert(symbols.take(n + 1).drop_last() =~= symbols.take(n));
        lemma_parse_fails_from(symbols, n + 1);
    } else {
        assert(symbols.take(n) =~= symbols);
    }
}

} // verus!
