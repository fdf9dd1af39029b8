//! What holds of reading a command line, whatever the tokens are.

use vstd::prelude::*;
use crate::abort::{AbortView, HELP_MESSAGE, UNKNOWN_OPTION_PREFIX};
use crate::ascii::same_ignoring_case;
use crate::config::{PyramidInfo, MAX_SIZE};
use crate::number::parsed_unsigned;
use crate::option::{lemma_option_ignores_case, lemma_option_is_no_value, SoapOption};
use crate::parse::{parse, parse_from, step, token_at, ParsedView, StepView};
use crate::program::{output, warning_text};
use crate::render::pyramid_text;

verus! {

/// A command line without tokens gives the configuration of a run without
/// options, and nothing is written out but its pyramid.
pub proof fn lemma_no_options()
    ensures
        parse(Seq::empty()) == (ParsedView { warnings: 0, result: Ok(PyramidInfo::initial()) }),
        output(Seq::empty()) == pyramid_text(PyramidInfo::initial()),
{
    assert(warning_text(0) + pyramid_text(PyramidInfo::initial()) =~= pyramid_text(
        PyramidInfo::initial(),
    ));
}

/// A configuration that was valid stays valid, whatever is read.
pub proof fn lemma_parse_from_valid(
    tokens: Seq<Seq<char>>,
    at: nat,
    info: PyramidInfo,
    warnings: nat,
)
    requires
        info.valid(),
    ensures
        parse_from(tokens, at, info, warnings).result matches Ok(read) ==> read.valid(),
    decreases tokens.len() - at,
{
    if at < tokens.len() {
        match step(info, tokens[at as int], token_at(tokens, at as int + 1)) {
            StepView::Stop(_) => {},
            StepView::Next { info: next, warned } => {
                lemma_parse_from_valid(
                    tokens,
                    at + 2,
                    next,
                    if warned {
                        warnings + 1
                    } else {
                        warnings
                    },
                );
            },
        }
    }
}

/// Every configuration that reading gives is valid: its size is within the
/// limit.
pub proof fn lemma_parse_valid(tokens: Seq<Seq<char>>)
    ensures
        parse(tokens).result matches Ok(read) ==> read.valid(),
{
    lemma_parse_from_valid(tokens, 0, PyramidInfo::initial(), 0);
}

/// Where the first `length` tokens are read to their end from position
/// `at`, reading all the tokens from there comes to position `length` with
/// what the first ones gave.
proof fn lemma_parse_from_beginning(
    tokens: Seq<Seq<char>>,
    length: int,
    at: nat,
    info: PyramidInfo,
    warnings: nat,
)
    requires
        0 <= length <= tokens.len(),
        at <= length,
        parse_from(tokens.take(length), at, info, warnings).result is Ok,
    ensures
        parse_from(tokens, at, info, warnings) == parse_from(
            tokens,
            length as nat,
            parse_from(tokens.take(length), at, info, warnings).result->Ok_0,
            parse_from(tokens.take(length), at, info, warnings).warnings,
        ),
    decreases length - at,
{
    let beginning = tokens.take(length);
    if at < length {
        assert(beginning[at as int] == tokens[at as int]);
        if at + 1 < length {
            assert(beginning[at as int + 1] == tokens[at as int + 1]);
        }
        match step(info, beginning[at as int], token_at(beginning, at as int + 1)) {
            StepView::Stop(_) => {},
            StepView::Next { info: next, warned } => {
                assert(token_at(beginning, at as int + 1) == token_at(tokens, at as int + 1));
                lemma_parse_from_beginning(
                    tokens,
                    length,
                    at + 2,
                    next,
                    if warned {
                        warnings + 1
                    } else {
                        warnings
                    },
                );
            },
        }
    }
}

/// Options are read from left to right: where the tokens before position
/// `at` are read to their end, reading goes on at `at` with the
/// configuration and the warnings that they gave.
pub proof fn lemma_parse_continues(tokens: Seq<Seq<char>>, at: int)
    requires
        0 <= at <= tokens.len(),
        parse(tokens.take(at)).result is Ok,
    ensures
        parse(tokens) == parse_from(
            tokens,
            at as nat,
            parse(tokens.take(at)).result->Ok_0,
            parse(tokens.take(at)).warnings,
        ),
{
    lemma_parse_from_beginning(tokens, at, 0, PyramidInfo::initial(), 0);
}

/// A size within the limit is taken; one above it leaves the configuration
/// as it was, counts as one more warning, and reading goes on behind it
/// either way.
pub proof fn lemma_size_taken_or_kept(tokens: Seq<Seq<char>>, at: int, size: usize)
    requires
        0 <= at,
        at + 1 < tokens.len(),
        parse(tokens.take(at)).result is Ok,
        SoapOption::of(tokens[at]) == SoapOption::Size,
        parsed_unsigned(tokens[at + 1]) == Some(size),
    ensures
        size <= MAX_SIZE ==> parse(tokens) == parse_from(
            tokens,
            (at + 2) as nat,
            PyramidInfo { size, character: parse(tokens.take(at)).result->Ok_0.character },
            parse(tokens.take(at)).warnings,
        ),
        size > MAX_SIZE ==> parse(tokens) == parse_from(
            tokens,
            (at + 2) as nat,
            parse(tokens.take(at)).result->Ok_0,
            parse(tokens.take(at)).warnings + 1,
        ),
{
    lemma_parse_continues(tokens, at);
}

/// A request for help that reading comes to ends it: nothing is shown but
/// the warnings up to there and the usage text, whatever was set before and
/// whatever follows.
pub proof fn lemma_help_ends_reading(tokens: Seq<Seq<char>>, at: int)
    requires
        0 <= at < tokens.len(),
        parse(tokens.take(at)).result is Ok,
        SoapOption::of(tokens[at]) == SoapOption::Help,
    ensures
        parse(tokens).result == Err::<PyramidInfo, AbortView>(AbortView::Help),
        parse(tokens).warnings == parse(tokens.take(at)).warnings,
        output(tokens) == warning_text(parse(tokens.take(at)).warnings) + HELP_MESSAGE@,
{
    lemma_parse_continues(tokens, at);
}

/// A token that names no option, where reading comes to it, ends the
/// reading: nothing is shown but the warnings up to there and the line that
/// names the token.
pub proof fn lemma_unknown_option_ends_reading(tokens: Seq<Seq<char>>, at: int)
    requires
        0 <= at < tokens.len(),
        parse(tokens.take(at)).result is Ok,
        SoapOption::of(tokens[at]) == SoapOption::Unknown,
    ensures
        parse(tokens).result == Err::<PyramidInfo, AbortView>(
            AbortView::UnknownOption(tokens[at]),
        ),
        parse(tokens).warnings == parse(tokens.take(at)).warnings,
        output(tokens) == warning_text(parse(tokens.take(at)).warnings) + (UNKNOWN_OPTION_PREFIX@
            + tokens[at]).push('\n'),
{
    lemma_parse_continues(tokens, at);
}

/// Two command lines differ at most in the case of the letters of tokens
/// that name an option.
pub open spec fn same_but_case_of_options(a: Seq<Seq<char>>, b: Seq<Seq<char>>) -> bool {
    &&& a.len() == b.len()
    &&& forall|i: int|
        0 <= i < a.len() ==> #[trigger] a[i] == b[i] || (SoapOption::of(a[i])
            != SoapOption::Unknown && same_ignoring_case(a[i], b[i]))
}

proof fn lemma_step_ignores_case(a: Seq<Seq<char>>, b: Seq<Seq<char>>, at: int, info: PyramidInfo)
    requires
        same_but_case_of_options(a, b),
        0 <= at < a.len(),
    ensures
        step(info, a[at], token_at(a, at + 1)) == step(info, b[at], token_at(b, at + 1)),
{
    if a[at] != b[at] {
        lemma_option_ignores_case(a[at], b[at]);
    }
    if at + 1 < a.len() && a[at + 1] != b[at + 1] {
        lemma_option_ignores_case(a[at + 1], b[at + 1]);
        lemma_option_is_no_value(a[at + 1]);
        lemma_option_is_no_value(b[at + 1]);
    }
}

proof fn lemma_parse_from_ignores_case(
    a: Seq<Seq<char>>,
    b: Seq<Seq<char>>,
    at: nat,
    info: PyramidInfo,
    warnings: nat,
)
    requires
        same_but_case_of_options(a, b),
    ensures
        parse_from(a, at, info, warnings) == parse_from(b, at, info, warnings),
    decreases a.len() - at,
{
    if at < a.len() {
        lemma_step_ignores_case(a, b, at as int, info);
        match step(info, a[at as int], token_at(a, at as int + 1)) {
            StepView::Stop(_) => {},
            StepView::Next { info: next, warned } => {
                lemma_parse_from_ignores_case(
                    a,
                    b,
                    at + 2,
                    next,
                    if warned {
                        warnings + 1
                    } else {
                        warnings
                    },
                );
            },
        }
    }
}

/// Options are named without regard to case: writing the letters of any
/// option in another case changes neither what is read nor what is written
/// out.
pub proof fn lemma_options_ignore_case(a: Seq<Seq<char>>, b: Seq<Seq<char>>)
    requires
        same_but_case_of_options(a, b),
    ensures
        parse(a) == parse(b),
        output(a) == output(b),
{
    lemma_parse_from_ignores_case(a, b, 0, PyramidInfo::initial(), 0);
}

} // verus!
