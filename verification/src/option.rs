//! The options that the command line knows.

use vstd::prelude::*;
use crate::ascii::{eq_ignore_ascii_case, lemma_same_ignoring_case, same_ignoring_case};
use crate::number::parsed_unsigned;

verus! {

/// What a token of the command line asks for.
#[derive(Clone, Copy, Debug, PartialEq, Eq, Structural)]
pub enum SoapOption {
    /// `-s` or `--size`: the next token is the number of rows.
    Size,
    /// `-c` or `--character`: the next token is the fill character.
    Character,
    /// `-h` or `--help`: show the usage text.
    Help,
    /// Any other token.
    Unknown,
}

impl SoapOption {
    /// The option that a token names. The case of its letters does not
    /// matter.
    pub open spec fn of(token: Seq<char>) -> SoapOption {
        if same_ignoring_case(token, "-s"@) || same_ignoring_case(token, "--size"@) {
            SoapOption::Size
        } else if same_ignoring_case(token, "-c"@) || same_ignoring_case(token, "--character"@) {
            SoapOption::Character
        } else if same_ignoring_case(token, "-h"@) || same_ignoring_case(token, "--help"@) {
            SoapOption::Help
        } else {
            SoapOption::Unknown
        }
    }

    /// Tells which option a token names.
    pub fn classify(token: &str) -> (option: SoapOption)
        ensures
            option == SoapOption::of(token@),
    {
        if eq_ignore_ascii_case(token, "-s") || eq_ignore_ascii_case(token, "--size") {
            SoapOption::Size
        } else if eq_ignore_ascii_case(token, "-c") || eq_ignore_ascii_case(token, "--character") {
            SoapOption::Character
        } else if eq_ignore_ascii_case(token, "-h") || eq_ignore_ascii_case(token, "--help") {
            SoapOption::Help
        } else {
            SoapOption::Unknown
        }
    }
}

/// The case of a token's letters does not change which option it names.
pub proof fn lemma_option_ignores_case(a: Seq<char>, b: Seq<char>)
    requires
        same_ignoring_case(a, b),
    ensures
        SoapOption::of(a) == SoapOption::of(b),
{
}

/// A token that names an option has at least two characters, the first of
/// them a hyphen.
pub proof fn lemma_option_shape(token: Seq<char>)
    requires
        SoapOption::of(token) != SoapOption::Unknown,
    ensures
        token.len() >= 2,
        token[0] == '-',
{
    reveal_strlit("-s");
    reveal_strlit("--size");
    reveal_strlit("-c");
    reveal_strlit("--character");
    reveal_strlit("-h");
    reveal_strlit("--help");
    lemma_same_ignoring_case(token, "-s"@);
    lemma_same_ignoring_case(token, "--size"@);
    lemma_same_ignoring_case(token, "-c"@);
    lemma_same_ignoring_case(token, "--character"@);
    lemma_same_ignoring_case(token, "-h"@);
    lemma_same_ignoring_case(token, "--help"@);
}

/// A token that names an option is no value for another: it is neither a
/// number nor a single character.
pub proof fn lemma_option_is_no_value(token: Seq<char>)
    requires
        SoapOption::of(token) != SoapOption::Unknown,
    ensures
        parsed_unsigned(token) is None,
        token.len() != 1,
{
    lemma_option_shape(token);
}

} // verus!
