//! The textual form of a grid: one line for each row, one character for
//! each cell.

use crate::grid::Grid;
use vstd::prelude::*;

verus! {

/// The text made of `lines` in order, each followed by a line feed.
pub open spec fn join_lines(lines: Seq<Seq<char>>) -> Seq<char>
    decreases lines.len(),
{
    if lines.len() == 0 {
        Seq::empty()
    } else {
        join_lines(lines.drop_last()) + lines.last() + seq!['\n']
    }
}

/// How many line feeds `text` holds.
pub open spec fn line_feeds(text: Seq<char>) -> nat
    decreases text.len(),
{
    if text.len() == 0 {
        0
    } else {
        line_feeds(text.drop_last()) + if text.last() == '\n' {
            1nat
        } else {
            0nat
        }
    }
}

impl Grid {
    /// The characters that stand for the cells of row `row`, from the first
    /// column to the last.
    pub open spec fn line(self, row: int) -> Seq<char> {
        Seq::new(self.width as nat, |col: int| self.cells[self.index(row, col)].glyph())
    }

    /// The lines of all rows, from the first row to the last.
    pub open spec fn lines(self) -> Seq<Seq<char>> {
        Seq::new(self.height as nat, |row: int| self.line(row))
    }

    /// The whole grid as text.
    pub open spec fn rendered(self) -> Seq<char> {
        join_lines(self.lines())
    }
}

/// Joining one more line appends that line and a line feed.
pub proof fn lemma_join_lines_push(lines: Seq<Seq<char>>, line: Seq<char>)
    ensures
        join_lines(lines.push(line)) == join_lines(lines) + line + seq!['\n'],
{
    assert(lines.push(line).drop_last() =~= lines);
}

/// The line feeds of a text in two parts are those of the parts.
pub proof fn lemma_line_feeds_concat(a: Seq<char>, b: Seq<char>)
    ensures
        line_feeds(a + b) == line_feeds(a) + line_feeds(b),
    decreases b.len(),
{
    if b.len() == 0 {
        assert(a + b =~= a);
    } else {
        assert((a + b).drop_last() =~= a + b.drop_last());
        lemma_line_feeds_concat(a, b.drop_last());
    }
}

/// A text without a line feed counts none.
pub proof fn lemma_line_feeds_none(text: Seq<char>)
    requires
        !text.contains('\n'),
    ensures
        line_feeds(text) == 0,
    decreases text.len(),
{
    if text.len() > 0 {
        assert(text.last() == text[text.len() - 1]);
        assert forall|i: int| 0 <= i < text.drop_last().len() implies text.drop_last()[i]
            != '\n' by {
            assert(text.drop_last()[i] == text[i]);
        }
        lemma_line_feeds_none(text.drop_last());
    }
}

/// Lines without line feeds, joined, hold one line feed for each line, and
/// as many characters as the lines together and those line feeds.
pub proof fn lemma_join_lines_shape(lines: Seq<Seq<char>>, width: nat)
    requires
        forall|i: int| 0 <= i < lines.len() ==> (#[trigger] lines[i]).len() == width,
        forall|i: int| 0 <= i < lines.len() ==> !(#[trigger] lines[i]).contains('\n'),
    ensures
        line_feeds(join_lines(lines)) == lines.len(),
        join_lines(lines).len() == lines.len() * (width + 1),
    decreases lines.len(),
{
    if lines.len() > 0 {
        let front = lines.drop_last();
        lemma_join_lines_shape(front, width);
        lemma_line_feeds_none(lines.last());
        lemma_line_feeds_concat(join_lines(front) + lines.last(), seq!['\n']);
        lemma_line_feeds_concat(join_lines(front), lines.last());
        assert(line_feeds(seq!['\n']) == 1) by {
            assert(seq!['\n'].drop_last() =~= Seq::<char>::empty());
            reveal_with_fuel(line_feeds, 2);
        }
        assert(lines.len() * (width + 1) == front.len() * (width + 1) + (width + 1))
            by (nonlinear_arith)
            requires
                lines.len() == front.len() + 1,
        ;
    }
}

/// The text of a grid has one line for each row and, in each line, one
/// character for each column: the lines are `height` many, each holds
/// `width` characters of which none is a line feed, and the text holds
/// `height` line feeds among `height * (width + 1)` characters.
pub proof fn lemma_rendered_shape(grid: Grid)
    requires
        grid.wf(),
    ensures
        grid.lines().len() == grid.height,
        forall|row: int|
            0 <= row < grid.height ==> (#[trigger] grid.lines()[row]).len() == grid.width,
        forall|row: int|
            0 <= row < grid.height ==> !(#[trigger] grid.lines()[row]).contains('\n'),
        line_feeds(grid.rendered()) == grid.height,
        grid.rendered().len() == grid.height * (grid.width + 1),
{
    assert forall|row: int| 0 <= row < grid.height implies !(#[trigger] grid.lines()[row]).contains(
        '\n',
    ) by {
        let line = grid.lines()[row];
        if line.contains('\n') {
            let col = choose|col: int| 0 <= col < line.len() && line[col] == '\n';
            assert(line[col] == grid.cells[grid.index(row, col)].glyph());
        }
    }
    lemma_join_lines_shape(grid.lines(), grid.width as nat);
}

} // verus!
