//! Building text character by character.

use vstd::prelude::*;

verus! {

/// `String::push` of the standard library: the text afterwards is the text
/// before with the one character added at its end. Taken on trust.
pub assume_specification[ String::push ](text: &mut String, c: char)
    ensures
        final(text)@ == old(text)@.push(c),
;

/// One character, `count` times.
pub open spec fn repeated(c: char, count: nat) -> Seq<char> {
    Seq::new(count, |i: int| c)
}

/// Adds one character to the end of a text, `count` times.
pub fn push_repeated(text: &mut String, c: char, count: usize)
    ensures
        final(text)@ == old(text)@ + repeated(c, count as nat),
{
    let mut done: usize = 0;
    while done < count
        invariant
            done <= count,
            text@ == old(text)@ + repeated(c, done as nat),
        decreases count - done,
    {
        text.push(c);
        done += 1;
        assert(text@ =~= old(text)@ + repeated(c, done as nat));
    }
}

} // verus!
