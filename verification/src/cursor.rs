//! A cursor over the tokens of a command line.

use vstd::prelude::*;

verus! {

/// A position in a list of tokens. Tokens are taken one at a time, from the
/// first to the last; a token that was taken is never given again.
pub struct ArgCursor<'a> {
    tokens: &'a Vec<String>,
    position: usize,
}

impl<'a> ArgCursor<'a> {
    #[verifier::type_invariant]
    spec fn in_bounds(self) -> bool {
        self.position <= self.tokens@.len()
    }

    /// All the tokens, taken or not.
    pub closed spec fn tokens(&self) -> Seq<Seq<char>> {
        self.tokens.deep_view()
    }

    /// How many tokens were taken.
    pub closed spec fn position(&self) -> nat {
        self.position as nat
    }

    /// A cursor before the first token.
    pub fn new(tokens: &'a Vec<String>) -> (cursor: Self)
        ensures
            cursor.tokens() == tokens.deep_view(),
            cursor.position() == 0,
    {
        ArgCursor { tokens, position: 0 }
    }

    /// Takes the next token, if one is left.
    pub fn next_token(&mut self) -> (token: Option<&'a String>)
        ensures
            final(self).tokens() == old(self).tokens(),
            final(self).position() <= final(self).tokens().len(),
            old(self).position() < old(self).tokens().len() ==> token.is_some()
                && token.unwrap()@ == old(self).tokens()[old(self).position() as int]
                && final(self).position() == old(self).position() + 1,
            old(self).position() >= old(self).tokens().len() ==> token.is_none()
                && final(self).position() == old(self).position(),
    {
        proof {
            use_type_invariant(&*self);
        }
        if self.position < self.tokens.len() {
            let token = &self.tokens[self.position];
            self.position += 1;
            Some(token)
        } else {
            None
        }
    }
}

} // verus!
