//! The whole program as a function: from the command line to the text that
//! is written out.

use vstd::prelude::*;
use vstd::string::*;
use crate::abort::INVALID_SIZE_MESSAGE;
use crate::parse::{parse, parse_command_arguments, Parsed, ParsedView};
use crate::render::{pyramid, pyramid_text};

verus! {

/// The line shown for a size above the limit, once for each such size.
pub open spec fn warning_text(count: nat) -> Seq<char>
    decreases count,
{
    if count == 0 {
        Seq::empty()
    } else {
        warning_text((count - 1) as nat) + INVALID_SIZE_MESSAGE@
    }
}

impl ParsedView {
    /// What reading the command line shows to the user: a line for each
    /// size that was turned down, then, where the reading ended early, the
    /// reason.
    pub open spec fn diagnostics(self) -> Seq<char> {
        match self.result {
            Ok(_) => warning_text(self.warnings),
            Err(abort) => warning_text(self.warnings) + abort.text(),
        }
    }
}

impl Parsed {
    /// What reading the command line shows to the user.
    pub fn diagnostics(&self) -> (text: String)
        ensures
            text@ == self@.diagnostics(),
    {
        let mut text = String::new();
        let mut shown: usize = 0;
        while shown < self.warnings
            invariant
                shown <= self.warnings,
                text@ == warning_text(shown as nat),
            decreases self.warnings - shown,
        {
            text.append(INVALID_SIZE_MESSAGE);
            shown += 1;
        }
        match &self.result {
            Ok(_) => {},
            Err(abort) => {
                let reason = abort.text();
                text.append(reason.as_str());
            },
        }
        text
    }
}

/// Everything that a run with the given command line writes out: what the
/// reading shows, and then, where it gave a configuration, the pyramid.
pub open spec fn output(tokens: Seq<Seq<char>>) -> Seq<char> {
    match parse(tokens).result {
        Ok(info) => parse(tokens).diagnostics() + pyramid_text(info),
        Err(_) => parse(tokens).diagnostics(),
    }
}

/// Runs the program on the tokens after its name, and gives what it writes
/// out.
pub fn run(args: &Vec<String>) -> (text: String)
    ensures
        text@ == output(args.deep_view()),
{
    let parsed = parse_command_arguments(args);
    let mut text = parsed.diagnostics();
    match &parsed.result {
        Ok(info) => {
            let drawn = pyramid(info);
            text.append(drawn.as_str());
        },
        Err(_) => {},
    }
    text
}

} // verus!
