//! The text of a pyramid.

use vstd::prelude::*;
use crate::config::{PyramidInfo, MAX_SIZE};
use crate::text::{push_repeated, repeated};

verus! {

/// A row of the pyramid, without the end of the line: the padding that
/// centers it, then the fill.
pub open spec fn pyramid_line(size: nat, row: nat, c: char) -> Seq<char>
    recommends
        row < size,
{
    repeated(' ', (size - row - 1) as nat) + repeated(c, 2 * row + 1)
}

/// The rows of a pyramid from the top down.
pub open spec fn pyramid_lines(size: nat, c: char) -> Seq<Seq<char>> {
    Seq::new(size, |row: int| pyramid_line(size, row as nat, c))
}

/// Lines as one text: each line, in order, followed by a newline.
pub open spec fn joined(lines: Seq<Seq<char>>) -> Seq<char>
    decreases lines.len(),
{
    if lines.len() == 0 {
        Seq::empty()
    } else {
        joined(lines.drop_last()) + lines.last().push('\n')
    }
}

/// The text that draws a pyramid.
pub open spec fn pyramid_text(info: PyramidInfo) -> Seq<char> {
    joined(pyramid_lines(info.size as nat, info.character))
}

/// Draws the pyramid: one line for each row, the top row first. Row `r`,
/// counted from zero, is `size - r - 1` spaces and then `2r + 1` fill
/// characters.
pub fn pyramid(info: &PyramidInfo) -> (text: String)
    requires
        info.valid(),
    ensures
        text@ == pyramid_text(*info),
        info.character != '\n' ==> lines_of(text@) == pyramid_lines(
            info.size as nat,
            info.character,
        ),
{
    let ghost lines = pyramid_lines(info.size as nat, info.character);
    let mut text = String::new();
    let mut row: usize = 0;
    while row < info.size
        invariant
            row <= info.size <= MAX_SIZE,
            lines == pyramid_lines(info.size as nat, info.character),
            text@ == joined(lines.take(row as int)),
        decreases info.size - row,
    {
        let ghost before = text@;
        push_repeated(&mut text, ' ', info.size - row - 1);
        push_repeated(&mut text, info.character, 2 * row + 1);
        text.push('\n');
        proof {
            let taken = lines.take(row + 1);
            assert(taken.drop_last() =~= lines.take(row as int));
            assert(taken.last() == pyramid_line(info.size as nat, row as nat, info.character));
            assert(text@ =~= before + taken.last().push('\n'));
        }
        row += 1;
    }
    proof {
        assert(lines.take(row as int) =~= lines);
        if info.character != '\n' {
            lemma_pyramid_rows(*info);
        }
    }
    text
}

/// How long the first line of a text is: the characters before its first
/// newline, or all of them where it has none.
pub open spec fn first_line_len(text: Seq<char>) -> nat
    decreases text.len(),
{
    if text.len() == 0 || text[0] == '\n' {
        0
    } else {
        1 + first_line_len(text.drop_first())
    }
}

/// The lines of a text: what stands between its newlines. A text that ends
/// in a newline has no line after it.
pub open spec fn lines_of(text: Seq<char>) -> Seq<Seq<char>>
    decreases text.len(),
{
    if text.len() == 0 {
        Seq::empty()
    } else if first_line_len(text) >= text.len() {
        seq![text]
    } else {
        seq![text.take(first_line_len(text) as int)] + lines_of(
            text.skip(first_line_len(text) as int + 1),
        )
    }
}

/// A line that holds no newline, followed by a newline and more text, is
/// the first line of the whole.
proof fn lemma_first_line(line: Seq<char>, rest: Seq<char>)
    requires
        !line.contains('\n'),
    ensures
        first_line_len(line.push('\n') + rest) == line.len(),
    decreases line.len(),
{
    let text = line.push('\n') + rest;
    if line.len() == 0 {
        assert(text[0] == '\n');
    } else {
        assert(line.contains(line[0]));
        assert(text[0] == line[0]);
        assert forall|c: char| line.drop_first().contains(c) implies line.contains(c) by {
            let i = choose|i: int| 0 <= i < line.drop_first().len() && line.drop_first()[i] == c;
            assert(line[i + 1] == c);
        }
        assert(text.drop_first() =~= line.drop_first().push('\n') + rest);
        lemma_first_line(line.drop_first(), rest);
    }
}

/// Joined lines begin with the first line and its newline.
proof fn lemma_joined_first(lines: Seq<Seq<char>>)
    requires
        lines.len() > 0,
    ensures
        joined(lines) == lines.first().push('\n') + joined(lines.drop_first()),
    decreases lines.len(),
{
    if lines.len() == 1 {
        assert(lines.drop_last() =~= Seq::<Seq<char>>::empty());
        assert(lines.drop_first() =~= Seq::<Seq<char>>::empty());
        assert(joined(lines) =~= lines.first().push('\n') + joined(lines.drop_first()));
    } else {
        lemma_joined_first(lines.drop_last());
        assert(lines.drop_last().drop_first() =~= lines.drop_first().drop_last());
        assert(joined(lines) =~= lines.first().push('\n') + joined(lines.drop_first()));
    }
}

/// Joining and splitting undo one another: the lines of joined lines are
/// those lines, as long as none of them holds a newline itself.
pub proof fn lemma_lines_of_joined(lines: Seq<Seq<char>>)
    requires
        forall|i: int| 0 <= i < lines.len() ==> !(#[trigger] lines[i]).contains('\n'),
    ensures
        lines_of(joined(lines)) == lines,
    decreases lines.len(),
{
    if lines.len() > 0 {
        let line = lines.first();
        let rest = joined(lines.drop_first());
        let text = joined(lines);
        lemma_joined_first(lines);
        lemma_first_line(line, rest);
        assert forall|i: int| 0 <= i < lines.drop_first().len() implies !(
        #[trigger] lines.drop_first()[i]).contains('\n') by {
            assert(lines.drop_first()[i] == lines[i + 1]);
        }
        lemma_lines_of_joined(lines.drop_first());
        assert(text.take(line.len() as int) =~= line);
        assert(text.skip(line.len() as int + 1) =~= rest);
        assert(seq![line] + lines.drop_first() =~= lines);
    }
}

/// The lines of a pyramid's text are its rows: as many as its size, and
/// row `r`, counted from zero, is `size - r - 1` spaces followed by
/// `2r + 1` fill characters and nothing else. (Where the fill is itself a
/// newline, the text has other lines.)
pub proof fn lemma_pyramid_rows(info: PyramidInfo)
    requires
        info.character != '\n',
    ensures
        lines_of(pyramid_text(info)) == pyramid_lines(info.size as nat, info.character),
        lines_of(pyramid_text(info)).len() == info.size,
        forall|row: int|
            0 <= row < info.size ==> #[trigger] lines_of(pyramid_text(info))[row] == repeated(
                ' ',
                (info.size - row - 1) as nat,
            ) + repeated(info.character, (2 * row + 1) as nat),
{
    let lines = pyramid_lines(info.size as nat, info.character);
    assert forall|i: int| 0 <= i < lines.len() implies !(#[trigger] lines[i]).contains('\n') by {
        let line = lines[i];
        if line.contains('\n') {
            let k = choose|k: int| 0 <= k < line.len() && line[k] == '\n';
            assert(line[k] == ' ' || line[k] == info.character);
        }
    }
    lemma_lines_of_joined(lines);
}

/// A pyramid without rows has no text.
pub proof fn lemma_empty_pyramid(character: char)
    ensures
        pyramid_text(PyramidInfo { size: 0, character }) == Seq::<char>::empty(),
{
}

/// The text of a pyramid of `n` rows has `(3n² + n) / 2` characters.
pub proof fn lemma_pyramid_text_len(info: PyramidInfo)
    ensures
        pyramid_text(info).len() == (3 * info.size * info.size + info.size) / 2,
{
    let lines = pyramid_lines(info.size as nat, info.character);
    lemma_rows_len(info, info.size as nat);
    assert(lines.take(info.size as int) =~= lines);
    assert(2 * (info.size * info.size) + info.size * (info.size + 1) == 3 * info.size * info.size
        + info.size) by (nonlinear_arith);
}

/// The first `count` rows of a pyramid, joined, have
/// `count * size + count * (count + 1) / 2` characters.
proof fn lemma_rows_len(info: PyramidInfo, count: nat)
    requires
        count <= info.size,
    ensures
        2 * joined(pyramid_lines(info.size as nat, info.character).take(count as int)).len() == 2
            * (count * info.size) + count * (count + 1),
    decreases count,
{
    let lines = pyramid_lines(info.size as nat, info.character);
    if count == 0 {
        assert(2 * (count * info.size) + count * (count + 1) == 0) by (nonlinear_arith)
            requires
                count == 0,
        ;
    } else {
        let taken = lines.take(count as int);
        lemma_rows_len(info, (count - 1) as nat);
        assert(taken.drop_last() =~= lines.take(count - 1));
        assert(taken.last() == pyramid_line(info.size as nat, (count - 1) as nat, info.character));
        assert(taken.last().len() == info.size + count - 1);
        assert(2 * ((count - 1) * info.size) + (count - 1) * count + 2 * (info.size + count) == 2
            * (count * info.size) + count * (count + 1)) by (nonlinear_arith);
    }
}

} // verus!
