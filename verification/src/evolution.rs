//! What holds of a grid over any number of generations.

use crate::cell::Cell;
use crate::grid::{lemma_cell_at_is_held, lemma_step_wf, Grid};
use crate::universe::Universe;
use vstd::prelude::*;

verus! {

impl Grid {
    /// The grid after the given number of generations.
    pub open spec fn after(self, generations: nat) -> Grid
        decreases generations,
    {
        if generations == 0 {
            self
        } else {
            self.after((generations - 1) as nat).step()
        }
    }
}

/// A well-formed grid stays well formed for ever, with the dimensions and
/// the number of cells that it started with.
pub proof fn lemma_after_keeps_shape(grid: Grid, generations: nat)
    requires
        grid.wf(),
    ensures
        grid.after(generations).wf(),
        grid.after(generations).width == grid.width,
        grid.after(generations).height == grid.height,
        grid.after(generations).cells.len() == grid.width * grid.height,
    decreases generations,
{
    if generations > 0 {
        lemma_after_keeps_shape(grid, (generations - 1) as nat);
        lemma_step_wf(grid.after((generations - 1) as nat));
    }
}

/// Nothing but its dimensions decides the life of a fresh universe: two
/// universes that hold the grid seeded for the same width and height hold
/// the same grid, and the same grid again after any number of generations.
pub proof fn lemma_seeded_history_is_determined(
    first: Universe,
    second: Universe,
    width: u32,
    height: u32,
    generations: nat,
)
    requires
        first@ == Grid::seeded(width as int, height as int),
        second@ == Grid::seeded(width as int, height as int),
    ensures
        first@ == second@,
        first@.after(generations) == second@.after(generations),
{
}

/// On a grid without a live cell every lookup finds a dead cell.
pub proof fn lemma_empty_cell_at(grid: Grid, row: int, col: int)
    requires
        grid.wf(),
        grid.all_dead(),
    ensures
        grid.cell_at(row, col) == Cell::Dead,
{
    lemma_cell_at_is_held(grid, row, col);
}

/// On a grid without a live cell no cell has a live neighbour.
pub proof fn lemma_empty_has_no_live_neighbors(grid: Grid, row: int, col: int)
    requires
        grid.wf(),
        grid.all_dead(),
    ensures
        grid.live_neighbors(row, col) == 0,
{
    lemma_empty_cell_at(grid, row - 1, col - 1);
    lemma_empty_cell_at(grid, row - 1, col);
    lemma_empty_cell_at(grid, row - 1, col + 1);
    lemma_empty_cell_at(grid, row, col - 1);
    lemma_empty_cell_at(grid, row, col + 1);
    lemma_empty_cell_at(grid, row + 1, col - 1);
    lemma_empty_cell_at(grid, row + 1, col);
    lemma_empty_cell_at(grid, row + 1, col + 1);
}

/// A grid without a live cell stays as it is for ever.
pub proof fn lemma_empty_stays_empty(grid: Grid, generations: nat)
    requires
        grid.wf(),
        grid.all_dead(),
    ensures
        grid.after(generations) == grid,
        grid.after(generations).all_dead(),
    decreases generations,
{
    if generations > 0 {
        lemma_empty_stays_empty(grid, (generations - 1) as nat);
        assert forall|i: int| 0 <= i < grid.cells.len() implies grid.next_cell(i)
            == Cell::Dead by {
            lemma_empty_has_no_live_neighbors(grid, i / grid.width, i % grid.width);
        }
        assert(grid.step().cells =~= grid.cells);
    }
}

} // verus!
