//! The ways in which reading the command line ends without a configuration,
//! and what is shown to the user for each.

use vstd::prelude::*;
use vstd::string::*;

verus! {

/// The usage text.
pub const HELP_MESSAGE: &'static str =
    "Usage: soap [OPTION..]\n\n  -s, --size HEIGHT       Set the vertical size of the pyramid\n  -c, --character CHAR    Set the character to be used in the pyramid\n  -h, --help              Display this help and exit\n";

/// Shown for a size that is no number, and for one above the limit.
pub const INVALID_SIZE_MESSAGE: &'static str = "Invalid size. Please use a number between 1 and 4096\n";

/// Shown where the size option is the last token.
pub const MISSING_SIZE_MESSAGE: &'static str = "No size found. Need a size after '-s'.\n";

/// Shown where the character option is the last token.
pub const MISSING_CHARACTER_MESSAGE: &'static str = "No character found. Need a character after '-c'.\n";

/// Shown for a fill that is not exactly one character.
pub const NOT_ONE_CHARACTER_MESSAGE: &'static str = "Please only use one character.\n";

/// Stands before the token that names no option.
pub const UNKNOWN_OPTION_PREFIX: &'static str = "Unknown option: ";

/// Why no pyramid is drawn.
#[derive(Debug, PartialEq, Eq)]
pub enum Abort {
    /// The size option was the last token.
    MissingSize,
    /// The token after the size option is no unsigned number.
    InvalidSize,
    /// The character option was the last token.
    MissingCharacter,
    /// The token after the character option is not exactly one character.
    NotOneCharacter,
    /// The usage text was asked for.
    Help,
    /// The token names no option.
    UnknownOption(String),
}

/// An [`Abort`] as a mathematical value: the token is a sequence of
/// characters.
pub enum AbortView {
    MissingSize,
    InvalidSize,
    MissingCharacter,
    NotOneCharacter,
    Help,
    UnknownOption(Seq<char>),
}

impl AbortView {
    /// What is shown to the user, with the end of its last line.
    pub open spec fn text(self) -> Seq<char> {
        match self {
            AbortView::MissingSize => MISSING_SIZE_MESSAGE@,
            AbortView::InvalidSize => INVALID_SIZE_MESSAGE@,
            AbortView::MissingCharacter => MISSING_CHARACTER_MESSAGE@,
            AbortView::NotOneCharacter => NOT_ONE_CHARACTER_MESSAGE@,
            AbortView::Help => HELP_MESSAGE@,
            AbortView::UnknownOption(token) => (UNKNOWN_OPTION_PREFIX@ + token).push('\n'),
        }
    }
}

impl View for Abort {
    type V = AbortView;

    open spec fn view(&self) -> AbortView {
        match self {
            Abort::MissingSize => AbortView::MissingSize,
            Abort::InvalidSize => AbortView::InvalidSize,
            Abort::MissingCharacter => AbortView::MissingCharacter,
            Abort::NotOneCharacter => AbortView::NotOneCharacter,
            Abort::Help => AbortView::Help,
            Abort::UnknownOption(token) => AbortView::UnknownOption(token@),
        }
    }
}

impl Abort {
    /// What is shown to the user, with the end of its last line.
    pub fn text(&self) -> (text: String)
        ensures
            text@ == self@.text(),
    {
        match self {
            Abort::MissingSize => MISSING_SIZE_MESSAGE.to_owned(),
            Abort::InvalidSize => INVALID_SIZE_MESSAGE.to_owned(),
            Abort::MissingCharacter => MISSING_CHARACTER_MESSAGE.to_owned(),
            Abort::NotOneCharacter => NOT_ONE_CHARACTER_MESSAGE.to_owned(),
            Abort::Help => HELP_MESSAGE.to_owned(),
            Abort::UnknownOption(token) => {
                let mut text = UNKNOWN_OPTION_PREFIX.to_owned();
                text.append(token.as_str());
                text.push('\n');
                text
            },
        }
    }
}

} // verus!
