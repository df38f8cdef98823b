//! Western tonal-music arithmetic on pitch classes: scales and chords from a
//! root and a formula, the diatonic harmonization of a scale, roman-numeral
//! chord symbols, and chord progressions whose inversions are chosen by the
//! motion of the bass.
//!
//! Every function states what it returns over the mathematical models of the
//! module it stands in, and is verified against that statement, with one
//! exception. Whether a text is one of a chord type's names, the case of ASCII
//! letters ignored, is asked of clap's `PossibleValue::matches`; what that call
//! answers is stated in `alias` and believed, not proved.

pub mod alias;
pub mod error;
pub mod formula;
pub mod generate;
pub mod harmony;
pub mod parser;
pub mod pitch;
pub mod progression;
pub mod text;

pub use error::{Inconsistency, ParseError};
pub use formula::{get_chord_quality_symbol, ChordType, ScaleType};
pub use generate::{build_chord, build_scale, get_inversions};
pub use harmony::{harmonize_scale, try_harmonize_scale, HarmonizedDegree};
pub use pitch::{semitone_distance, transpose, Interval, Note};
pub use progression::{
    build_custom_progression, build_progression, choose_inversion, get_block_progression_spec,
    get_bloque_rm_progression_spec, get_circle_progression_spec, get_guajira_progression_spec,
    solve_voice_leading, voice_next_chord, HarmonicFormula, ProgressionChord,
};
