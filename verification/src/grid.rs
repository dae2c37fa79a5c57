//! The mathematical model of the automaton: a rectangle of cells whose
//! edges are joined to the opposite edges, and one generation of its life.

use crate::cell::Cell;
use vstd::arithmetic::div_mod::*;
use vstd::prelude::*;

verus! {

/// The state in which the cell at position `index` of a fresh grid starts:
/// alive where the position is a multiple of two or of seven.
pub open spec fn seed(index: int) -> Cell {
    if index % 2 == 0 || index % 7 == 0 {
        Cell::Alive
    } else {
        Cell::Dead
    }
}

/// A grid of `width` columns and `height` rows, held row by row.
pub struct Grid {
    pub width: int,
    pub height: int,
    pub cells: Seq<Cell>,
}

impl Grid {
    /// Both dimensions are positive and there is one cell for each position.
    pub open spec fn wf(self) -> bool {
        &&& self.width >= 1
        &&& self.height >= 1
        &&& self.cells.len() == self.width * self.height
    }

    /// Where the cell of row `row` and column `col` is held.
    pub open spec fn index(self, row: int, col: int) -> int {
        row * self.width + col
    }

    /// The cell at `row`, `col`, for any integers: each coordinate is taken
    /// modulo the grid's extent, so that a step over an edge arrives at the
    /// opposite edge.
    pub open spec fn cell_at(self, row: int, col: int) -> Cell {
        self.cells[self.index(row % self.height, col % self.width)]
    }

    /// How many of the eight cells around `row`, `col` are alive. On a grid
    /// of fewer than three rows or columns one cell may stand at several of
    /// the eight places, and is then counted once for each.
    pub open spec fn live_neighbors(self, row: int, col: int) -> int {
        self.cell_at(row - 1, col - 1).population()
            + self.cell_at(row - 1, col).population()
            + self.cell_at(row - 1, col + 1).population()
            + self.cell_at(row, col - 1).population()
            + self.cell_at(row, col + 1).population()
            + self.cell_at(row + 1, col - 1).population()
            + self.cell_at(row + 1, col).population()
            + self.cell_at(row + 1, col + 1).population()
    }

    /// The cell that stands at position `i` in the next generation.
    pub open spec fn next_cell(self, i: int) -> Cell {
        self.cells[i].spec_next_state(self.live_neighbors(i / self.width, i % self.width))
    }

    /// The next generation: every cell changes at once, by the rule applied
    /// to its present state and its present neighbours.
    pub open spec fn step(self) -> Grid {
        Grid {
            width: self.width,
            height: self.height,
            cells: Seq::new(self.cells.len(), |i: int| self.next_cell(i)),
        }
    }

    /// The grid that a universe of the given dimensions starts from.
    pub open spec fn seeded(width: int, height: int) -> Grid {
        Grid { width, height, cells: Seq::new((width * height) as nat, |i: int| seed(i)) }
    }

    /// No cell is alive.
    pub open spec fn all_dead(self) -> bool {
        forall|i: int| 0 <= i < self.cells.len() ==> self.cells[i] == Cell::Dead
    }
}

/// A position inside the grid is held inside the cell sequence, and row and
/// column are recovered from it by division.
pub proof fn lemma_index_of_position(grid: Grid, row: int, col: int)
    requires
        grid.wf(),
        0 <= row < grid.height,
        0 <= col < grid.width,
    ensures
        0 <= grid.index(row, col) < grid.cells.len(),
        grid.index(row, col) / grid.width == row,
        grid.index(row, col) % grid.width == col,
        grid.cell_at(row, col) == grid.cells[grid.index(row, col)],
{
    let w = grid.width;
    let h = grid.height;
    assert(0 <= row * w && row * w + w <= h * w) by (nonlinear_arith)
        requires
            0 <= row < h,
            1 <= w,
    ;
    assert(h * w == w * h) by (nonlinear_arith);
    lemma_fundamental_div_mod_converse(row * w + col, w, row, col);
    lemma_small_mod(row as nat, h as nat);
    lemma_small_mod(col as nat, w as nat);
}

/// Every held cell stands at exactly one position inside the grid.
pub proof fn lemma_position_of_index(grid: Grid, i: int)
    requires
        grid.wf(),
        0 <= i < grid.cells.len(),
    ensures
        0 <= i / grid.width < grid.height,
        0 <= i % grid.width < grid.width,
        grid.index(i / grid.width, i % grid.width) == i,
{
    let w = grid.width;
    let h = grid.height;
    lemma_fundamental_div_mod(i, w);
    lemma_mod_bound(i, w);
    let q = i / w;
    assert(w * q == q * w) by (nonlinear_arith);
    assert(0 <= q < h) by (nonlinear_arith)
        requires
            1 <= w,
            0 <= i < w * h,
            i == q * w + i % w,
            0 <= i % w < w,
    ;
}

/// One step along an axis of `extent` places that closes on itself: before
/// the first place lies the last, and after the last the first.
pub proof fn lemma_wrap_step(place: int, extent: int)
    requires
        0 <= place < extent,
    ensures
        place % extent == place,
        (place - 1) % extent == if place == 0 {
            extent - 1
        } else {
            place - 1
        },
        (place + 1) % extent == if place == extent - 1 {
            0
        } else {
            place + 1
        },
{
    lemma_small_mod(place as nat, extent as nat);
    if place == 0 {
        lemma_mod_add_multiples_vanish(-1, extent);
        lemma_small_mod((extent - 1) as nat, extent as nat);
    } else {
        lemma_small_mod((place - 1) as nat, extent as nat);
    }
    if place == extent - 1 {
        lemma_mod_self_0(extent);
    } else {
        lemma_small_mod((place + 1) as nat, extent as nat);
    }
}

/// In the next generation the cell at a position is what the rule makes of
/// its present state and its present count of live neighbours.
pub proof fn lemma_step_cell_at(grid: Grid, row: int, col: int)
    requires
        grid.wf(),
        0 <= row < grid.height,
        0 <= col < grid.width,
    ensures
        grid.step().cell_at(row, col) == grid.cell_at(row, col).spec_next_state(
            grid.live_neighbors(row, col),
        ),
{
    lemma_index_of_position(grid, row, col);
    lemma_index_of_position(grid.step(), row, col);
}

/// Whatever the coordinates, the lookup lands on a held cell: the wrapped
/// coordinates name a position inside the grid.
pub proof fn lemma_cell_at_is_held(grid: Grid, row: int, col: int)
    requires
        grid.wf(),
    ensures
        0 <= row % grid.height < grid.height,
        0 <= col % grid.width < grid.width,
        0 <= grid.index(row % grid.height, col % grid.width) < grid.cells.len(),
{
    lemma_mod_bound(row, grid.height);
    lemma_mod_bound(col, grid.width);
    lemma_index_of_position(grid, row % grid.height, col % grid.width);
}

/// The grid is a torus: a whole turn along either axis arrives at the same
/// cell.
pub proof fn lemma_cell_at_is_periodic(grid: Grid, row: int, col: int)
    requires
        grid.wf(),
    ensures
        grid.cell_at(row + grid.height, col) == grid.cell_at(row, col),
        grid.cell_at(row - grid.height, col) == grid.cell_at(row, col),
        grid.cell_at(row, col + grid.width) == grid.cell_at(row, col),
        grid.cell_at(row, col - grid.width) == grid.cell_at(row, col),
{
    lemma_mod_add_multiples_vanish(row, grid.height);
    lemma_mod_sub_multiples_vanish(row, grid.height);
    lemma_mod_add_multiples_vanish(col, grid.width);
    lemma_mod_sub_multiples_vanish(col, grid.width);
}

/// Cells at an edge see across it: the cell at the first row and first
/// column is among the neighbours of the cell at the last row of its
/// column, of the cell at the last column of its row, and of the cell at
/// the last row and last column. While it is alive each of them counts at
/// least one live neighbour.
pub proof fn lemma_corner_is_seen_across_edges(grid: Grid)
    requires
        grid.wf(),
    ensures
        grid.cell_at((grid.height - 1) + 1, 0) == grid.cells[0],
        grid.cell_at(0, (grid.width - 1) + 1) == grid.cells[0],
        grid.cell_at((grid.height - 1) + 1, (grid.width - 1) + 1) == grid.cells[0],
        grid.cells[0] == Cell::Alive ==> {
            &&& grid.live_neighbors(grid.height - 1, 0) >= 1
            &&& grid.live_neighbors(0, grid.width - 1) >= 1
            &&& grid.live_neighbors(grid.height - 1, grid.width - 1) >= 1
        },
{
    lemma_mod_self_0(grid.height);
    lemma_mod_self_0(grid.width);
    lemma_small_mod(0, grid.height as nat);
    lemma_small_mod(0, grid.width as nat);
    assert(grid.index(0, 0) == 0) by (nonlinear_arith)
        requires
            grid.index(0, 0) == 0 * grid.width + 0,
    ;
}

/// On a grid of a single cell all eight places around the cell are the
/// cell itself, which is so counted eight times.
pub proof fn lemma_single_cell_counts_itself(grid: Grid)
    requires
        grid.wf(),
        grid.width == 1,
        grid.height == 1,
    ensures
        grid.live_neighbors(0, 0) == 8 * grid.cells[0].population(),
{
    lemma_cell_at_is_held(grid, -1, -1);
    lemma_cell_at_is_held(grid, 0, 0);
    lemma_cell_at_is_held(grid, 1, 1);
}

/// The neighbour count lies between zero and eight.
pub proof fn lemma_live_neighbors_bounds(grid: Grid, row: int, col: int)
    ensures
        0 <= grid.live_neighbors(row, col) <= 8,
{
}

/// Stepping keeps the dimensions and the number of cells.
pub proof fn lemma_step_wf(grid: Grid)
    requires
        grid.wf(),
    ensures
        grid.step().wf(),
        grid.step().width == grid.width,
        grid.step().height == grid.height,
        grid.step().cells.len() == grid.cells.len(),
{
}

/// A fresh grid of positive dimensions is well formed.
pub proof fn lemma_seeded_wf(width: int, height: int)
    requires
        width >= 1,
        height >= 1,
    ensures
        Grid::seeded(width, height).wf(),
        Grid::seeded(width, height).cells.len() == width * height,
{
    assert(width * height >= 1) by (nonlinear_arith)
        requires
            width >= 1,
            height >= 1,
    ;
}

} // verus!
