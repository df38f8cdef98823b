//! The names by which the chord types are written, and the lookup of a chord
//! type by any of them.

use clap::builder::PossibleValue;
use vstd::prelude::*;
use crate::formula::ChordType;
use crate::text::{ascii_lowercase, eq_ignore_ascii_case};

verus! {

/// What each of the given texts holds, in order.
pub open spec fn texts(names: Seq<&'static str>) -> Seq<Seq<char>> {
    Seq::new(names.len(), |i: int| names[i]@)
}

/// Whether `value` is one of `names` but for the case of its ASCII letters.
pub open spec fn any_name_matches(names: Seq<Seq<char>>, value: Seq<char>) -> bool {
    exists|i: int| 0 <= i < names.len() && eq_ignore_ascii_case(#[trigger] names[i], value)
}

/// Asks clap's `PossibleValue::matches`, with case ignored, whether `value`
/// names the possible value made of `name` and `aliases`. Built without
/// clap's `unicode` feature, clap compares the name and each alias with
/// `value` by `str::eq_ignore_ascii_case`, and answers yes if one of them is
/// equal. That is all this contract states.
#[verifier::external_body]
fn possible_value_matches(
    name: &'static str,
    aliases: &Vec<&'static str>,
    value: &str,
) -> (hit: bool)
    ensures
        hit == any_name_matches(seq![name@] + texts(aliases@), value@),
{
    PossibleValue::new(name).aliases(aliases.iter().copied()).matches(value, true)
}

/// The chord types in the order in which a name is looked up among them.
pub open spec fn chord_catalog() -> Seq<ChordType> {
    seq![
        ChordType::Major,
        ChordType::Minor,
        ChordType::Diminished,
        ChordType::Augmented,
        ChordType::Major7,
        ChordType::Minor7,
        ChordType::Dominant7,
        ChordType::Minor7b5,
        ChordType::Diminished7,
        ChordType::MinorMajor7,
        ChordType::AugmentedMajor7,
    ]
}

/// The first of `catalog` that answers to `text`, if any does.
pub open spec fn first_answering(catalog: Seq<ChordType>, text: Seq<char>) -> Option<ChordType>
    decreases catalog.len(),
{
    if catalog.len() == 0 {
        None
    } else if catalog[0].answers_to(text) {
        Some(catalog[0])
    } else {
        first_answering(catalog.drop_first(), text)
    }
}

impl ChordType {
    /// The names of the chord type: its full name, then its aliases.
    pub open spec fn names(self) -> Seq<Seq<char>> {
        match self {
            ChordType::Major => seq!["major"@, "maj"@],
            ChordType::Minor => seq!["minor"@, "min"@],
            ChordType::Diminished => seq!["diminished"@, "dim"@],
            ChordType::Augmented => seq!["augmented"@, "aug"@],
            ChordType::Major7 => seq!["major7"@, "maj7"@],
            ChordType::Minor7 => seq!["minor7"@, "min7"@, "m7"@],
            ChordType::Dominant7 => seq!["dominant7"@, "dom7"@, "7"@],
            ChordType::Minor7b5 => seq!["minor7b5"@, "m7b5"@, "half-diminished"@],
            ChordType::Diminished7 => seq!["diminished7"@, "dim7"@],
            ChordType::MinorMajor7 => seq!["minor-major7"@, "mmaj7"@, "m(maj7)"@],
            ChordType::AugmentedMajor7 => seq!["augmented-major7"@, "augmaj7"@, "aug(maj7)"@],
        }
    }

    /// Whether `text` is one of the chord type's names, but for the case of
    /// its ASCII letters.
    pub open spec fn answers_to(self, text: Seq<char>) -> bool {
        any_name_matches(self.names(), text)
    }

    /// The chord type that `text` names: the first in the catalog's order that
    /// answers to it.
    pub open spec fn spec_from_alias(text: Seq<char>) -> Option<ChordType> {
        first_answering(chord_catalog(), text)
    }

    /// The full name of the chord type, in lower case with hyphens.
    pub fn name(&self) -> (name: &'static str)
        ensures
            name@ == self.names()[0],
    {
        match self {
            ChordType::Major => "major",
            ChordType::Minor => "minor",
            ChordType::Diminished => "diminished",
            ChordType::Augmented => "augmented",
            ChordType::Major7 => "major7",
            ChordType::Minor7 => "minor7",
            ChordType::Dominant7 => "dominant7",
            ChordType::Minor7b5 => "minor7b5",
            ChordType::Diminished7 => "diminished7",
            ChordType::MinorMajor7 => "minor-major7",
            ChordType::AugmentedMajor7 => "augmented-major7",
        }
    }

    /// The shorter names by which the chord type is also known.
    pub fn aliases(&self) -> (aliases: Vec<&'static str>)
        ensures
            texts(aliases@) == self.names().skip(1),
    {
        let aliases: Vec<&'static str> = match self {
            ChordType::Major => vec!["maj"],
            ChordType::Minor => vec!["min"],
            ChordType::Diminished => vec!["dim"],
            ChordType::Augmented => vec!["aug"],
            ChordType::Major7 => vec!["maj7"],
            ChordType::Minor7 => vec!["min7", "m7"],
            ChordType::Dominant7 => vec!["dom7", "7"],
            ChordType::Minor7b5 => vec!["m7b5", "half-diminished"],
            ChordType::Diminished7 => vec!["dim7"],
            ChordType::MinorMajor7 => vec!["mmaj7", "m(maj7)"],
            ChordType::AugmentedMajor7 => vec!["augmaj7", "aug(maj7)"],
        };
        assert(texts(aliases@) =~= self.names().skip(1));
        aliases
    }

    /// Whether `text` is one of the chord type's names, but for the case of
    /// its ASCII letters.
    pub fn is_named(&self, text: &str) -> (hit: bool)
        ensures
            hit == self.answers_to(text@),
    {
        let name: &'static str = self.name();
        let aliases: Vec<&'static str> = self.aliases();
        assert(seq![name@] + texts(aliases@) =~= self.names());
        possible_value_matches(name, &aliases, text)
    }

    /// Finds the chord type that `text` names, by its full name or an alias
    /// and without regard to the case of ASCII letters. Where several chord
    /// types answer to the text, the first in the catalog's order is taken.
    pub fn from_alias(text: &str) -> (found: Option<ChordType>)
        ensures
            found == ChordType::spec_from_alias(text@),
            forall|chord_type: ChordType|
                found == Some(chord_type) <==> #[trigger] chord_type.answers_to(text@),
    {
        let catalog: &'static [ChordType] = &[
            ChordType::Major,
            ChordType::Minor,
            ChordType::Diminished,
            ChordType::Augmented,
            ChordType::Major7,
            ChordType::Minor7,
            ChordType::Dominant7,
            ChordType::Minor7b5,
            ChordType::Diminished7,
            ChordType::MinorMajor7,
            ChordType::AugmentedMajor7,
        ];
        assert(catalog@ =~= chord_catalog());
        assert(chord_catalog().skip(0) =~= chord_catalog());
        let mut i: usize = 0;
        while i < catalog.len()
            invariant
                i <= catalog@.len(),
                catalog@ == chord_catalog(),
                first_answering(chord_catalog(), text@) == first_answering(
                    chord_catalog().skip(i as int),
                    text@,
                ),
            decreases catalog@.len() - i,
        {
            let ghost rest = chord_catalog().skip(i as int);
            assert(rest[0] == catalog@[i as int]);
            assert(rest.drop_first() =~= chord_catalog().skip(i + 1));
            if catalog[i].is_named(text) {
                proof {
                    lemma_from_alias_finds_every_owner(text@);
                }
                return Some(catalog[i]);
            }
            i += 1;
        }
        proof {
            lemma_from_alias_finds_every_owner(text@);
        }
        None
    }
}

/// The names of two different chord types differ, also without regard to the
/// case of ASCII letters.
proof fn lemma_names_of_two_types_differ(a: ChordType, b: ChordType, i: int, j: int)
    requires
        a != b,
        0 <= i < a.names().len(),
        0 <= j < b.names().len(),
    ensures
        !eq_ignore_ascii_case(a.names()[i], b.names()[j]),
{
    reveal_strlit("major");
    reveal_strlit("maj");
    reveal_strlit("minor");
    reveal_strlit("min");
    reveal_strlit("diminished");
    reveal_strlit("dim");
    reveal_strlit("augmented");
    reveal_strlit("aug");
    reveal_strlit("major7");
    reveal_strlit("maj7");
    reveal_strlit("minor7");
    reveal_strlit("min7");
    reveal_strlit("m7");
    reveal_strlit("dominant7");
    reveal_strlit("dom7");
    reveal_strlit("7");
    reveal_strlit("minor7b5");
    reveal_strlit("m7b5");
    reveal_strlit("half-diminished");
    reveal_strlit("diminished7");
    reveal_strlit("dim7");
    reveal_strlit("minor-major7");
    reveal_strlit("mmaj7");
    reveal_strlit("m(maj7)");
    reveal_strlit("augmented-major7");
    reveal_strlit("augmaj7");
    reveal_strlit("aug(maj7)");
    assert(ascii_lowercase("major"@).len() == 5);
    assert(ascii_lowercase("maj"@).len() == 3);
    assert(ascii_lowercase("minor"@).len() == 5);
    assert(ascii_lowercase("min"@).len() == 3);
    assert(ascii_lowercase("diminished"@).len() == 10);
    assert(ascii_lowercase("dim"@).len() == 3);
    assert(ascii_lowercase("augmented"@).len() == 9);
    assert(ascii_lowercase("aug"@).len() == 3);
    assert(ascii_lowercase("major7"@).len() == 6);
    assert(ascii_lowercase("maj7"@).len() == 4);
    assert(ascii_lowercase("minor7"@).len() == 6);
    assert(ascii_lowercase("min7"@).len() == 4);
    assert(ascii_lowercase("m7"@).len() == 2);
    assert(ascii_lowercase("dominant7"@).len() == 9);
    assert(ascii_lowercase("dom7"@).len() == 4);
    assert(ascii_lowercase("7"@).len() == 1);
    assert(ascii_lowercase("minor7b5"@).len() == 8);
    assert(ascii_lowercase("m7b5"@).len() == 4);
    assert(ascii_lowercase("half-diminished"@).len() == 15);
    assert(ascii_lowercase("diminished7"@).len() == 11);
    assert(ascii_lowercase("dim7"@).len() == 4);
    assert(ascii_lowercase("minor-major7"@).len() == 12);
    assert(ascii_lowercase("mmaj7"@).len() == 5);
    assert(ascii_lowercase("m(maj7)"@).len() == 7);
    assert(ascii_lowercase("augmented-major7"@).len() == 16);
    assert(ascii_lowercase("augmaj7"@).len() == 7);
    assert(ascii_lowercase("aug(maj7)"@).len() == 9);
    assert(ascii_lowercase("major"@)[1] != ascii_lowercase("minor"@)[1]);
    assert(ascii_lowercase("major"@)[1] != ascii_lowercase("mmaj7"@)[1]);
    assert(ascii_lowercase("maj"@)[1] != ascii_lowercase("min"@)[1]);
    assert(ascii_lowercase("maj"@)[0] != ascii_lowercase("dim"@)[0]);
    assert(ascii_lowercase("maj"@)[0] != ascii_lowercase("aug"@)[0]);
    assert(ascii_lowercase("minor"@)[1] != ascii_lowercase("mmaj7"@)[1]);
    assert(ascii_lowercase("min"@)[0] != ascii_lowercase("dim"@)[0]);
    assert(ascii_lowercase("min"@)[0] != ascii_lowercase("aug"@)[0]);
    assert(ascii_lowercase("dim"@)[0] != ascii_lowercase("aug"@)[0]);
    assert(ascii_lowercase("augmented"@)[0] != ascii_lowercase("dominant7"@)[0]);
    assert(ascii_lowercase("augmented"@)[3] != ascii_lowercase("aug(maj7)"@)[3]);
    assert(ascii_lowercase("major7"@)[1] != ascii_lowercase("minor7"@)[1]);
    assert(ascii_lowercase("maj7"@)[1] != ascii_lowercase("min7"@)[1]);
    assert(ascii_lowercase("maj7"@)[0] != ascii_lowercase("dom7"@)[0]);
    assert(ascii_lowercase("maj7"@)[1] != ascii_lowercase("m7b5"@)[1]);
    assert(ascii_lowercase("maj7"@)[0] != ascii_lowercase("dim7"@)[0]);
    assert(ascii_lowercase("min7"@)[0] != ascii_lowercase("dom7"@)[0]);
    assert(ascii_lowercase("min7"@)[1] != ascii_lowercase("m7b5"@)[1]);
    assert(ascii_lowercase("min7"@)[0] != ascii_lowercase("dim7"@)[0]);
    assert(ascii_lowercase("dominant7"@)[0] != ascii_lowercase("aug(maj7)"@)[0]);
    assert(ascii_lowercase("dom7"@)[0] != ascii_lowercase("m7b5"@)[0]);
    assert(ascii_lowercase("dom7"@)[1] != ascii_lowercase("dim7"@)[1]);
    assert(ascii_lowercase("m7b5"@)[0] != ascii_lowercase("dim7"@)[0]);
    assert(ascii_lowercase("m(maj7)"@)[0] != ascii_lowercase("augmaj7"@)[0]);
}

/// No text names two chord types: the order in which the catalog is gone
/// through does not change what is found.
pub proof fn lemma_chord_names_unambiguous(a: ChordType, b: ChordType, text: Seq<char>)
    requires
        a.answers_to(text),
        b.answers_to(text),
    ensures
        a == b,
{
    if a != b {
        let i = choose|i: int|
            0 <= i < a.names().len() && eq_ignore_ascii_case(#[trigger] a.names()[i], text);
        let j = choose|j: int|
            0 <= j < b.names().len() && eq_ignore_ascii_case(#[trigger] b.names()[j], text);
        lemma_names_of_two_types_differ(a, b, i, j);
    }
}

/// A text names a chord type exactly if the chord type answers to it.
pub proof fn lemma_from_alias_finds_the_owner(text: Seq<char>, chord_type: ChordType)
    ensures
        ChordType::spec_from_alias(text) == Some(chord_type) <==> chord_type.answers_to(text),
{
    lemma_first_answering(chord_catalog(), text);
    assert(exists|k: int| 0 <= k < chord_catalog().len() && chord_catalog()[k] == chord_type) by {
        let k = catalog_position(chord_type);
        assert(chord_catalog()[k] == chord_type);
    }
    match ChordType::spec_from_alias(text) {
        Some(found) => {
            if chord_type.answers_to(text) {
                lemma_chord_names_unambiguous(found, chord_type, text);
            }
        },
        None => {},
    }
}

/// What a text finds is the one chord type that answers to it.
proof fn lemma_from_alias_finds_every_owner(text: Seq<char>)
    ensures
        forall|chord_type: ChordType|
            ChordType::spec_from_alias(text) == Some(chord_type)
                <==> #[trigger] chord_type.answers_to(text),
{
    assert forall|chord_type: ChordType|
        ChordType::spec_from_alias(text) == Some(chord_type) <==> #[trigger] chord_type.answers_to(
            text,
        ) by {
        lemma_from_alias_finds_the_owner(text, chord_type);
    }
}

/// The place of a chord type in the catalog.
spec fn catalog_position(chord_type: ChordType) -> int {
    match chord_type {
        ChordType::Major => 0,
        ChordType::Minor => 1,
        ChordType::Diminished => 2,
        ChordType::Augmented => 3,
        ChordType::Major7 => 4,
        ChordType::Minor7 => 5,
        ChordType::Dominant7 => 6,
        ChordType::Minor7b5 => 7,
        ChordType::Diminished7 => 8,
        ChordType::MinorMajor7 => 9,
        ChordType::AugmentedMajor7 => 10,
    }
}

/// What is found first in a catalog answers to the text, and nothing is found
/// only where nothing in the catalog answers.
proof fn lemma_first_answering(catalog: Seq<ChordType>, text: Seq<char>)
    ensures
        match first_answering(catalog, text) {
            Some(found) => found.answers_to(text),
            None => forall|k: int|
                0 <= k < catalog.len() ==> !(#[trigger] catalog[k]).answers_to(text),
        },
    decreases catalog.len(),
{
    if catalog.len() > 0 && !catalog[0].answers_to(text) {
        let rest = catalog.drop_first();
        lemma_first_answering(rest, text);
        if first_answering(rest, text) is None {
            assert forall|k: int| 0 <= k < catalog.len() implies !(
            #[trigger] catalog[k]).answers_to(text) by {
                if k > 0 {
                    assert(catalog[k] == rest[k - 1]);
                }
            }
        }
    }
}

} // verus!
