//! The immutable configuration value the generation core consumes. It arrives
//! already validated by the surrounding command-line layer; fields that are
//! irrelevant for the selected generation type are simply ignored.
use vstd::prelude::*;

verus! {

/// Configuration for one generation run.
pub struct PasswordGeneratorConfig {
    /// Password length to be generated (random and pin types).
    pub length: u16,
    /// Which generation mechanism to use: "random", "pin" or "memorable".
    pub gen_type: String,
    /// Whether to use numbers in a random password.
    pub use_numbers: bool,
    /// Whether to use special symbols in a random password.
    pub use_symbols: bool,
    /// Whether to use capitalized letters in a random password.
    pub use_capitals: bool,
    /// Whether to capitalize whole memorable words by chance.
    pub capitalize_memorable_words: bool,
    /// Whether to capitalize the first letter of memorable words by chance.
    pub capitalize_memorable_first_letter: bool,
    /// The number of words included in a memorable password.
    pub words_count: u16,
    /// Whether output may leave a terminal; the core ignores it.
    pub insecure_mode: bool,
}

} // verus!
