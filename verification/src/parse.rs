//! Reading the command line: from the tokens after the program's name to a
//! configuration, or to the reason why there is none.

use vstd::prelude::*;
use vstd::string::*;
use crate::abort::{Abort, AbortView};
use crate::config::{PyramidInfo, MAX_SIZE};
use crate::cursor::ArgCursor;
use crate::number::{parse_unsigned, parsed_unsigned};
use crate::option::SoapOption;

verus! {

/// What one option does to the configuration.
#[derive(Debug, PartialEq, Eq)]
pub enum Step {
    /// Reading goes on with this configuration. `warned` says that a size
    /// above the limit was turned down, and the configuration kept as it
    /// was.
    Next { info: PyramidInfo, warned: bool },
    /// Reading ends here.
    Stop(Abort),
}

/// A [`Step`] as a mathematical value.
pub enum StepView {
    Next { info: PyramidInfo, warned: bool },
    Stop(AbortView),
}

impl View for Step {
    type V = StepView;

    open spec fn view(&self) -> StepView {
        match self {
            Step::Next { info, warned } => StepView::Next { info: *info, warned: *warned },
            Step::Stop(abort) => StepView::Stop(abort@),
        }
    }
}

/// How reading the command line ended.
#[derive(Debug, PartialEq, Eq)]
pub struct Parsed {
    /// How many sizes above the limit were turned down on the way.
    pub warnings: usize,
    /// The configuration, or why there is none.
    pub result: Result<PyramidInfo, Abort>,
}

/// A [`Parsed`] as a mathematical value.
pub struct ParsedView {
    pub warnings: nat,
    pub result: Result<PyramidInfo, AbortView>,
}

impl View for Parsed {
    type V = ParsedView;

    open spec fn view(&self) -> ParsedView {
        ParsedView {
            warnings: self.warnings as nat,
            result: match self.result {
                Ok(info) => Ok(info),
                Err(abort) => Err(abort@),
            },
        }
    }
}

/// The token at a position, if there is one.
pub open spec fn token_at(tokens: Seq<Seq<char>>, at: int) -> Option<Seq<char>> {
    if 0 <= at < tokens.len() {
        Some(tokens[at])
    } else {
        None
    }
}

/// What the option named by `flag` does to `info`, where `value` is the
/// token that follows it, if any.
///
/// A size that is no number ends the reading; a size above the limit only
/// leaves the configuration as it was.
pub open spec fn step(info: PyramidInfo, flag: Seq<char>, value: Option<Seq<char>>) -> StepView {
    match SoapOption::of(flag) {
        SoapOption::Size => match value {
            None => StepView::Stop(AbortView::MissingSize),
            Some(text) => match parsed_unsigned(text) {
                None => StepView::Stop(AbortView::InvalidSize),
                Some(size) => if size <= MAX_SIZE {
                    StepView::Next {
                        info: PyramidInfo { size, character: info.character },
                        warned: false,
                    }
                } else {
                    StepView::Next { info, warned: true }
                },
            },
        },
        SoapOption::Character => match value {
            None => StepView::Stop(AbortView::MissingCharacter),
            Some(text) => if text.len() == 1 {
                StepView::Next {
                    info: PyramidInfo { size: info.size, character: text[0] },
                    warned: false,
                }
            } else {
                StepView::Stop(AbortView::NotOneCharacter)
            },
        },
        SoapOption::Help => StepView::Stop(AbortView::Help),
        SoapOption::Unknown => StepView::Stop(AbortView::UnknownOption(flag)),
    }
}

/// Reading the tokens from position `at` on, with the configuration and the
/// count of warnings that the tokens before it have led to. An option that
/// does not end the reading takes two tokens: its flag and its value.
pub open spec fn parse_from(
    tokens: Seq<Seq<char>>,
    at: nat,
    info: PyramidInfo,
    warnings: nat,
) -> ParsedView
    decreases tokens.len() - at,
{
    if at >= tokens.len() {
        ParsedView { warnings, result: Ok(info) }
    } else {
        match step(info, tokens[at as int], token_at(tokens, at as int + 1)) {
            StepView::Stop(abort) => ParsedView { warnings, result: Err(abort) },
            StepView::Next { info: next, warned } => parse_from(
                tokens,
                at + 2,
                next,
                if warned {
                    warnings + 1
                } else {
                    warnings
                },
            ),
        }
    }
}

/// Reading a whole command line, from the configuration of a run without
/// options.
pub open spec fn parse(tokens: Seq<Seq<char>>) -> ParsedView {
    parse_from(tokens, 0, PyramidInfo::initial(), 0)
}

/// The options that are followed by a value.
pub open spec fn takes_value(option: SoapOption) -> bool {
    option == SoapOption::Size || option == SoapOption::Character
}

/// How many tokens the option named by `flag` takes from position `at` on:
/// one, its value, where it has a value and a token is left.
pub open spec fn value_taken(flag: Seq<char>, tokens: Seq<Seq<char>>, at: nat) -> nat {
    if takes_value(SoapOption::of(flag)) && at < tokens.len() {
        1
    } else {
        0
    }
}

/// Applies the option that `flag` names to `info`. The cursor stands behind
/// the flag; an option that has a value takes it from there.
pub fn apply_option(info: PyramidInfo, flag: &str, cursor: &mut ArgCursor) -> (taken: Step)
    ensures
        taken@ == step(info, flag@, token_at(old(cursor).tokens(), old(cursor).position() as int)),
        final(cursor).tokens() == old(cursor).tokens(),
        final(cursor).position() == old(cursor).position() + value_taken(
            flag@,
            old(cursor).tokens(),
            old(cursor).position(),
        ),
        info.valid() ==> (taken matches Step::Next { info: next, .. } ==> next.valid()),
{
    match SoapOption::classify(flag) {
        SoapOption::Size => match cursor.next_token() {
            None => Step::Stop(Abort::MissingSize),
            Some(text) => match parse_unsigned(text.as_str()) {
                None => Step::Stop(Abort::InvalidSize),
                Some(size) => if size <= MAX_SIZE {
                    Step::Next {
                        info: PyramidInfo { size, character: info.character },
                        warned: false,
                    }
                } else {
                    Step::Next { info, warned: true }
                },
            },
        },
        SoapOption::Character => match cursor.next_token() {
            None => Step::Stop(Abort::MissingCharacter),
            Some(text) => if text.as_str().unicode_len() == 1 {
                Step::Next {
                    info: PyramidInfo { size: info.size, character: text.as_str().get_char(0) },
                    warned: false,
                }
            } else {
                Step::Stop(Abort::NotOneCharacter)
            },
        },
        SoapOption::Help => Step::Stop(Abort::Help),
        SoapOption::Unknown => Step::Stop(Abort::UnknownOption(flag.to_owned())),
    }
}

/// Reads the command line, given as the tokens after the program's name.
///
/// Options are read from left to right. Each sets its part of the
/// configuration; what no option sets stays as in a run without options.
/// The first option that cannot be read ends the reading.
pub fn parse_command_arguments(args: &Vec<String>) -> (parsed: Parsed)
    ensures
        parsed@ == parse(args.deep_view()),
        parsed.result matches Ok(info) ==> info.valid(),
{
    let ghost tokens = args.deep_view();
    let mut cursor = ArgCursor::new(args);
    let mut info = PyramidInfo::default();
    let mut warnings: usize = 0;
    loop
        invariant
            tokens == args.deep_view(),
            cursor.tokens() == tokens,
            cursor.position() <= tokens.len() == args.len(),
            warnings <= cursor.position(),
            info.valid(),
            parse(tokens) == parse_from(tokens, cursor.position(), info, warnings as nat),
        decreases tokens.len() - cursor.position(),
    {
        let flag = match cursor.next_token() {
            None => {
                return Parsed { warnings, result: Ok(info) };
            },
            Some(flag) => flag,
        };
        match apply_option(info, flag.as_str(), &mut cursor) {
            Step::Stop(abort) => {
                return Parsed { warnings, result: Err(abort) };
            },
            Step::Next { info: next, warned } => {
                info = next;
                if warned {
                    warnings += 1;
                }
            },
        }
    }
}

} // verus!
