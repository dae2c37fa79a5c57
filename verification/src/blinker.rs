//! The blinker: three live cells in a line, which turn about their middle
//! cell with every generation.

use crate::cell::Cell;
use crate::grid::{
    lemma_cell_at_is_held, lemma_index_of_position, lemma_position_of_index, lemma_wrap_step,
    Grid,
};
use vstd::prelude::*;

verus! {

/// Whether `place` is `centre` or next to it, on an axis of `extent` places
/// that closes on itself.
pub open spec fn within_one(place: int, centre: int, extent: int) -> bool {
    place == centre || place == (centre + 1) % extent || place == (centre - 1) % extent
}

/// The state of the cell at `r`, `c` where a blinker lies in row `row`
/// about column `col`, on a grid of `width` columns.
pub open spec fn flat_blinker_cell(width: int, row: int, col: int, r: int, c: int) -> Cell {
    if r == row && within_one(c, col, width) {
        Cell::Alive
    } else {
        Cell::Dead
    }
}

/// The state of the cell at `r`, `c` where a blinker stands in column `col`
/// about row `row`, on a grid of `height` rows.
pub open spec fn upright_blinker_cell(height: int, row: int, col: int, r: int, c: int) -> Cell {
    if c == col && within_one(r, row, height) {
        Cell::Alive
    } else {
        Cell::Dead
    }
}

impl Grid {
    /// The grid whose live cells are the three of row `row` about column
    /// `col`.
    pub open spec fn flat_blinker(width: int, height: int, row: int, col: int) -> Grid {
        Grid {
            width,
            height,
            cells: Seq::new(
                (width * height) as nat,
                |i: int| flat_blinker_cell(width, row, col, i / width, i % width),
            ),
        }
    }

    /// The grid whose live cells are the three of column `col` about row
    /// `row`.
    pub open spec fn upright_blinker(width: int, height: int, row: int, col: int) -> Grid {
        Grid {
            width,
            height,
            cells: Seq::new(
                (width * height) as nat,
                |i: int| upright_blinker_cell(height, row, col, i / width, i % width),
            ),
        }
    }
}

proof fn lemma_blinkers_wf(width: int, height: int, row: int, col: int)
    requires
        width >= 1,
        height >= 1,
    ensures
        Grid::flat_blinker(width, height, row, col).wf(),
        Grid::upright_blinker(width, height, row, col).wf(),
{
    assert(width * height >= 1) by (nonlinear_arith)
        requires
            width >= 1,
            height >= 1,
    ;
}

/// What a lookup finds on the two blinkers, whatever the coordinates.
proof fn lemma_blinker_cell_at(width: int, height: int, row: int, col: int, r: int, c: int)
    requires
        width >= 1,
        height >= 1,
    ensures
        Grid::flat_blinker(width, height, row, col).cell_at(r, c) == flat_blinker_cell(
            width,
            row,
            col,
            r % height,
            c % width,
        ),
        Grid::upright_blinker(width, height, row, col).cell_at(r, c) == upright_blinker_cell(
            height,
            row,
            col,
            r % height,
            c % width,
        ),
{
    let flat = Grid::flat_blinker(width, height, row, col);
    let upright = Grid::upright_blinker(width, height, row, col);
    lemma_blinkers_wf(width, height, row, col);
    lemma_cell_at_is_held(flat, r, c);
    lemma_index_of_position(flat, r % height, c % width);
    lemma_index_of_position(upright, r % height, c % width);
}

/// The next state of each cell of a blinker, lying or standing, on a grid
/// with room for it to turn.
proof fn lemma_blinker_next_cell(width: int, height: int, row: int, col: int, r: int, c: int)
    requires
        width >= 3,
        height >= 3,
        0 <= row < height,
        0 <= col < width,
        0 <= r < height,
        0 <= c < width,
    ensures
        width >= 4 ==> Grid::flat_blinker(width, height, row, col).next_cell(r * width + c)
            == upright_blinker_cell(height, row, col, r, c),
        height >= 4 ==> Grid::upright_blinker(width, height, row, col).next_cell(r * width + c)
            == flat_blinker_cell(width, row, col, r, c),
{
    lemma_blinkers_wf(width, height, row, col);
    lemma_index_of_position(Grid::flat_blinker(width, height, row, col), r, c);
    lemma_wrap_step(r, height);
    lemma_wrap_step(c, width);
    lemma_wrap_step(row, height);
    lemma_wrap_step(col, width);
    lemma_blinker_cell_at(width, height, row, col, r, c);
    lemma_blinker_cell_at(width, height, row, col, r - 1, c - 1);
    lemma_blinker_cell_at(width, height, row, col, r - 1, c);
    lemma_blinker_cell_at(width, height, row, col, r - 1, c + 1);
    lemma_blinker_cell_at(width, height, row, col, r, c - 1);
    lemma_blinker_cell_at(width, height, row, col, r, c + 1);
    lemma_blinker_cell_at(width, height, row, col, r + 1, c - 1);
    lemma_blinker_cell_at(width, height, row, col, r + 1, c);
    lemma_blinker_cell_at(width, height, row, col, r + 1, c + 1);
}

/// On a grid of at least four columns and three rows, a blinker that lies
/// in a row stands in the column of its middle cell one generation later.
pub proof fn lemma_flat_blinker_stands_up(width: int, height: int, row: int, col: int)
    requires
        width >= 4,
        height >= 3,
        0 <= row < height,
        0 <= col < width,
    ensures
        Grid::flat_blinker(width, height, row, col).step() == Grid::upright_blinker(
            width,
            height,
            row,
            col,
        ),
{
    let flat = Grid::flat_blinker(width, height, row, col);
    let upright = Grid::upright_blinker(width, height, row, col);
    lemma_blinkers_wf(width, height, row, col);
    assert forall|i: int| 0 <= i < flat.cells.len() implies flat.next_cell(i)
        == upright.cells[i] by {
        lemma_position_of_index(flat, i);
        lemma_blinker_next_cell(width, height, row, col, i / width, i % width);
    }
    assert(flat.step().cells =~= upright.cells);
}

/// On a grid of at least three columns and four rows, a blinker that
/// stands in a column lies in the row of its middle cell one generation
/// later.
pub proof fn lemma_upright_blinker_lies_down(width: int, height: int, row: int, col: int)
    requires
        width >= 3,
        height >= 4,
        0 <= row < height,
        0 <= col < width,
    ensures
        Grid::upright_blinker(width, height, row, col).step() == Grid::flat_blinker(
            width,
            height,
            row,
            col,
        ),
{
    let flat = Grid::flat_blinker(width, height, row, col);
    let upright = Grid::upright_blinker(width, height, row, col);
    lemma_blinkers_wf(width, height, row, col);
    assert forall|i: int| 0 <= i < upright.cells.len() implies upright.next_cell(i)
        == flat.cells[i] by {
        lemma_position_of_index(upright, i);
        lemma_blinker_next_cell(width, height, row, col, i / width, i % width);
    }
    assert(upright.step().cells =~= flat.cells);
}

/// On a grid of at least four rows and four columns the blinker, wherever
/// it lies or stands, is back after two generations.
pub proof fn lemma_blinker_has_period_two(width: int, height: int, row: int, col: int)
    requires
        width >= 4,
        height >= 4,
        0 <= row < height,
        0 <= col < width,
    ensures
        Grid::flat_blinker(width, height, row, col).after(2) == Grid::flat_blinker(
            width,
            height,
            row,
            col,
        ),
        Grid::upright_blinker(width, height, row, col).after(2) == Grid::upright_blinker(
            width,
            height,
            row,
            col,
        ),
{
    lemma_flat_blinker_stands_up(width, height, row, col);
    lemma_upright_blinker_lies_down(width, height, row, col);
    reveal_with_fuel(Grid::after, 3);
}

} // verus!
