//! The failures that the library reports.

use vstd::prelude::*;
use vstd::string::StringExecFns;

verus! {

/// A violated internal invariant: a value that no valid computation produces.
#[derive(Copy, Clone, Debug, PartialEq, Eq)]
pub enum Inconsistency {
    /// A pitch index above 11.
    InvalidPitchIndex { index: u8 },
    /// Distances of a third, a fifth and an optional seventh from the root that
    /// no chord of the catalog has.
    UnclassifiableChord { third: u8, fifth: u8, seventh: Option<u8> },
}

/// Text that cannot be read as what it should name.
#[derive(Debug, PartialEq, Eq)]
pub enum ParseError {
    /// The text names no pitch class.
    InvalidNote { text: String },
    /// The chord symbol `input` has no valid roman numeral where one should
    /// stand. `numeral` holds the numeral letters that were found there: none,
    /// or letters that spell no numeral from I to VII.
    InvalidNumeral { input: String, numeral: String },
    /// What follows the numeral of a chord symbol names no chord quality.
    UnknownChordSuffix { suffix: String },
}

/// What a `ParseError` holds, as mathematical values.
pub enum ParseErrorView {
    InvalidNote { text: Seq<char> },
    InvalidNumeral { input: Seq<char>, numeral: Seq<char> },
    UnknownChordSuffix { suffix: Seq<char> },
}

impl ParseErrorView {
    /// The sentence that reports the error.
    pub open spec fn message(self) -> Seq<char> {
        match self {
            ParseErrorView::InvalidNote { text } => "Invalid root note: "@ + text,
            ParseErrorView::InvalidNumeral { input, numeral } => if numeral.len() == 0 {
                "Invalid roman numeral in '"@ + input + "': missing numeral"@
            } else {
                "Invalid roman numeral: "@ + numeral
            },
            ParseErrorView::UnknownChordSuffix { suffix } => "Unknown chord suffix: "@ + suffix,
        }
    }
}

impl View for ParseError {
    type V = ParseErrorView;

    open spec fn view(&self) -> ParseErrorView {
        match self {
            ParseError::InvalidNote { text } => ParseErrorView::InvalidNote { text: text@ },
            ParseError::InvalidNumeral { input, numeral } => ParseErrorView::InvalidNumeral {
                input: input@,
                numeral: numeral@,
            },
            ParseError::UnknownChordSuffix { suffix } => ParseErrorView::UnknownChordSuffix {
                suffix: suffix@,
            },
        }
    }
}

impl ParseError {
    /// The sentence that reports the error, with the offending text in it.
    pub fn message(&self) -> (sentence: String)
        ensures
            sentence@ == self@.message(),
    {
        match self {
            ParseError::InvalidNote { text } => {
                let mut sentence: String = "Invalid root note: ".to_owned();
                sentence.append(text.as_str());
                sentence
            },
            ParseError::InvalidNumeral { input, numeral } => {
                if numeral.as_str().is_empty() {
                    let mut sentence: String = "Invalid roman numeral in '".to_owned();
                    sentence.append(input.as_str());
                    sentence.append("': missing numeral");
                    sentence
                } else {
                    let mut sentence: String = "Invalid roman numeral: ".to_owned();
                    sentence.append(numeral.as_str());
                    sentence
                }
            },
            ParseError::UnknownChordSuffix { suffix } => {
                let mut sentence: String = "Unknown chord suffix: ".to_owned();
                sentence.append(suffix.as_str());
                sentence
            },
        }
    }
}

} // verus!
