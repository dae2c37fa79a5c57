//! The executable universe: it owns the cells and advances them in place.

use crate::cell::Cell;
use crate::grid::{lemma_index_of_position, lemma_seeded_wf, seed, Grid};
use crate::text::{join_lines, lemma_join_lines_push, lemma_rendered_shape, line_feeds};
use vstd::arithmetic::div_mod::*;
use vstd::prelude::*;

verus! {

/// A grid of cells of fixed dimensions. Its view is the [`Grid`] that it
/// holds, which is well formed at all times.
pub struct Universe {
    width: u32,
    height: u32,
    cells: Vec<Cell>,
}

impl View for Universe {
    type V = Grid;

    closed spec fn view(&self) -> Grid {
        Grid { width: self.width as int, height: self.height as int, cells: self.cells@ }
    }
}

/// The place reached from `from` by `delta` steps along an axis of `extent`
/// places whose last place is followed by its first.
fn wrapped(from: u32, delta: u32, extent: u32) -> (to: u32)
    requires
        extent >= 1,
    ensures
        to == (from + delta) % (extent as int),
        to < extent,
{
    let sum: u64 = from as u64 + delta as u64;
    let to: u64 = sum % (extent as u64);
    proof {
        lemma_mod_bound(sum as int, extent as int);
    }
    to as u32
}

impl Universe {
    #[verifier::type_invariant]
    spec fn inv(&self) -> bool {
        self@.wf()
    }

    /// Whether a universe of these dimensions can be built: both are
    /// positive and the number of cells can be counted in a `usize`.
    pub open spec fn valid_dimensions(width: u32, height: u32) -> bool {
        width >= 1 && height >= 1 && width * height <= usize::MAX
    }

    /// A universe of the given dimensions in its starting pattern.
    pub fn new(width: u32, height: u32) -> (universe: Universe)
        requires
            Self::valid_dimensions(width, height),
        ensures
            universe@ == Grid::seeded(width as int, height as int),
            universe@.wf(),
            universe@.cells.len() == width * height,
    {
        let count: usize = width as usize * height as usize;
        let mut cells: Vec<Cell> = Vec::new();
        let mut i: usize = 0;
        while i < count
            invariant
                i <= count,
                cells@.len() == i,
                forall|k: int| 0 <= k < i ==> cells@[k] == seed(k),
            decreases count - i,
        {
            if i % 2 == 0 || i % 7 == 0 {
                cells.push(Cell::Alive);
            } else {
                cells.push(Cell::Dead);
            }
            i += 1;
        }
        proof {
            lemma_seeded_wf(width as int, height as int);
            assert(cells@ =~= Grid::seeded(width as int, height as int).cells);
        }
        Universe { width, height, cells }
    }

    /// A universe of the given dimensions in its starting pattern, or `None`
    /// where the dimensions are not valid.
    pub fn try_new(width: u32, height: u32) -> (made: Option<Universe>)
        ensures
            made is Some <==> Self::valid_dimensions(width, height),
            made matches Some(universe) ==> universe@ == Grid::seeded(width as int, height as int)
                && universe@.wf(),
    {
        if width == 0 || height == 0 {
            return None;
        }
        match (width as usize).checked_mul(height as usize) {
            Some(_) => Some(Universe::new(width, height)),
            None => None,
        }
    }

    /// A universe of the given dimensions that holds `cells`, row by row, or
    /// `None` where a dimension is zero or the cells are not one for each
    /// position.
    pub fn from_cells(width: u32, height: u32, cells: Vec<Cell>) -> (made: Option<Universe>)
        ensures
            made is Some <==> width >= 1 && height >= 1 && cells@.len() == width * height,
            made matches Some(universe) ==> universe@ == (Grid {
                width: width as int,
                height: height as int,
                cells: cells@,
            }) && universe@.wf(),
    {
        if width == 0 || height == 0 {
            return None;
        }
        assert(cells.len() == cells@.len());
        match (width as usize).checked_mul(height as usize) {
            Some(count) => {
                if cells.len() == count {
                    Some(Universe { width, height, cells })
                } else {
                    None
                }
            },
            None => None,
        }
    }

    /// The number of columns.
    pub fn width(&self) -> (width: u32)
        ensures
            width == self@.width,
            width >= 1,
    {
        proof {
            use_type_invariant(self);
        }
        self.width
    }

    /// The number of rows.
    pub fn height(&self) -> (height: u32)
        ensures
            height == self@.height,
            height >= 1,
    {
        proof {
            use_type_invariant(self);
        }
        self.height
    }

    /// The cells, row by row. The borrow ends before the universe can
    /// change again.
    pub fn cells(&self) -> (cells: &[Cell])
        ensures
            cells@ == self@.cells,
            cells@.len() == self@.width * self@.height,
    {
        proof {
            use_type_invariant(self);
        }
        self.cells.as_slice()
    }

    /// The universe as text: the rows from first to last, each as one line
    /// that ends in a line feed, with one character for each cell.
    pub fn render(&self) -> (text: String)
        ensures
            text@ == self@.rendered(),
            line_feeds(text@) == self@.height,
            text@.len() == self@.height * (self@.width + 1),
    {
        proof {
            use_type_invariant(self);
            lemma_rendered_shape(self@);
        }
        let mut text = String::new();
        let mut row: u32 = 0;
        while row < self.height
            invariant
                self@.wf(),
                row <= self.height,
                text@ == join_lines(self@.lines().take(row as int)),
            decreases self.height - row,
        {
            let ghost above = text@;
            let mut col: u32 = 0;
            while col < self.width
                invariant
                    self@.wf(),
                    row < self.height,
                    col <= self.width,
                    text@ == above + self@.line(row as int).take(col as int),
                decreases self.width - col,
            {
                let index = self.get_index(row, col);
                text.append(self.cells[index].symbol());
                proof {
                    let line = self@.line(row as int);
                    assert(line.take(col + 1) =~= line.take(col as int).push(line[col as int]));
                }
                col += 1;
            }
            text.append("\n");
            proof {
                reveal_strlit("\n");
                assert("\n"@ =~= seq!['\n']);
                let lines = self@.lines();
                let line = self@.line(row as int);
                assert(line.take(self.width as int) =~= line);
                assert(lines.take(row + 1) =~= lines.take(row as int).push(line));
                lemma_join_lines_push(lines.take(row as int), line);
            }
            row += 1;
        }
        proof {
            assert(self@.lines().take(self.height as int) =~= self@.lines());
        }
        text
    }

    /// The position in the cell buffer of the cell at `row`, `col`.
    pub fn get_index(&self, row: u32, col: u32) -> (index: usize)
        requires
            row < self@.height,
            col < self@.width,
        ensures
            index == self@.index(row as int, col as int),
            index < self@.cells.len(),
    {
        proof {
            use_type_invariant(self);
            lemma_index_of_position(self@, row as int, col as int);
            assert(self.cells.len() == self@.cells.len());
            assert(0 <= row * self.width) by (nonlinear_arith)
                requires
                    0 <= row,
                    0 <= self.width,
            ;
        }
        row as usize * self.width as usize + col as usize
    }

    /// Whether the cell at `row`, `col` is alive, as a number.
    fn population(&self, row: u32, col: u32) -> (count: u8)
        requires
            row < self@.height,
            col < self@.width,
        ensures
            count == self@.cell_at(row as int, col as int).population(),
            count <= 1,
    {
        proof {
            use_type_invariant(self);
            lemma_index_of_position(self@, row as int, col as int);
        }
        let index = self.get_index(row, col);
        match self.cells[index] {
            Cell::Dead => 0,
            Cell::Alive => 1,
        }
    }

    /// How many of the eight cells around `row`, `col` are alive, where the
    /// cells beyond an edge are those at the opposite edge.
    pub fn live_neighbor_count(&self, row: u32, col: u32) -> (count: u8)
        requires
            row < self@.height,
            col < self@.width,
        ensures
            count == self@.live_neighbors(row as int, col as int),
            count <= 8,
    {
        proof {
            use_type_invariant(self);
        }
        let north = wrapped(row, self.height - 1, self.height);
        let south = wrapped(row, 1, self.height);
        let west = wrapped(col, self.width - 1, self.width);
        let east = wrapped(col, 1, self.width);
        proof {
            let h = self.height as int;
            let w = self.width as int;
            lemma_mod_add_multiples_vanish(row - 1, h);
            lemma_mod_add_multiples_vanish(col - 1, w);
            lemma_small_mod(row as nat, h as nat);
            lemma_small_mod(col as nat, w as nat);
            lemma_small_mod(north as nat, h as nat);
            lemma_small_mod(south as nat, h as nat);
            lemma_small_mod(west as nat, w as nat);
            lemma_small_mod(east as nat, w as nat);
        }
        let mut count: u8 = self.population(north, west);
        count += self.population(north, col);
        count += self.population(north, east);
        count += self.population(row, west);
        count += self.population(row, east);
        count += self.population(south, west);
        count += self.population(south, col);
        count += self.population(south, east);
        count
    }

    /// Advances the universe by one generation.
    pub fn tick(&mut self)
        ensures
            final(self)@ == old(self)@.step(),
            final(self)@.wf(),
            final(self)@.width == old(self)@.width,
            final(self)@.height == old(self)@.height,
            final(self)@.cells.len() == old(self)@.width * old(self)@.height,
    {
        proof {
            use_type_invariant(&*self);
        }
        let mut next = self.cells.clone();
        let mut row: u32 = 0;
        while row < self.height
            invariant
                *self == *old(self),
                self@.wf(),
                row <= self.height,
                next@.len() == self.cells@.len(),
                forall|k: int| 0 <= k < row * self.width ==> next@[k] == self@.next_cell(k),
            decreases self.height - row,
        {
            let mut col: u32 = 0;
            while col < self.width
                invariant
                    *self == *old(self),
                    self@.wf(),
                    row < self.height,
                    col <= self.width,
                    next@.len() == self.cells@.len(),
                    forall|k: int|
                        0 <= k < row * self.width + col ==> next@[k] == self@.next_cell(k),
                decreases self.width - col,
            {
                let index = self.get_index(row, col);
                let cell = self.cells[index];
                let live_neighbors = self.live_neighbor_count(row, col);
                proof {
                    lemma_index_of_position(self@, row as int, col as int);
                }
                next[index] = cell.next_state(live_neighbors);
                col += 1;
            }
            row += 1;
            proof {
                assert(row * self.width == (row - 1) * self.width + self.width)
                    by (nonlinear_arith);
            }
        }
        proof {
            assert(self.height * self.width == self.width * self.height) by (nonlinear_arith);
            assert(next@ =~= self@.step().cells);
        }
        self.cells = next;
    }
}

} // verus!
