//! The executable engine: a grid of cells with its dimensions.

use vstd::prelude::*;
use vstd::std_specs::cmp::PartialEqSpecImpl;
use crate::cell::Cell;
use crate::grid::{
    coords_in_bounds, dead_grid, glyphs, grid_from_buffer, lemma_index_in_buffer,
    lemma_wrap_steps, live_neighbors, marked, next_generation, next_state, rectangular,
    render_grid, render_row, seed_cell, seeded_grid, valid_buffer, with_alive, wrap, Grid,
};

verus! {

/// The rows of a vector of rows, each taken by its view.
pub open spec fn rows_view(rows: Seq<Vec<Cell>>) -> Grid {
    Seq::new(rows.len(), |y: int| rows[y]@)
}

/// A rectangular grid of cells on a torus.
#[derive(Debug)]
pub struct Universe {
    width: u32,
    height: u32,
    cells: Vec<Vec<Cell>>,
}

impl View for Universe {
    type V = Grid;

    /// The grid that the universe holds, row by row.
    closed spec fn view(&self) -> Grid {
        rows_view(self.cells@)
    }
}

impl PartialEq for Universe {
    /// Compares two universes: they are equal where they have the same
    /// dimensions and hold the same grid.
    fn eq(&self, other: &Self) -> (equal: bool) {
        if self.width != other.width || self.height != other.height {
            return false;
        }
        if self.cells.len() != other.cells.len() {
            assert(self@.len() != other@.len());
            return false;
        }
        let mut y: usize = 0;
        while y < self.cells.len()
            invariant
                y <= self.cells.len(),
                self.cells.len() == other.cells.len(),
                forall|j: int| 0 <= j < y ==> (#[trigger] self.cells@[j])@ == other.cells@[j]@,
            decreases self.cells.len() - y,
        {
            if !same_row(&self.cells[y], &other.cells[y]) {
                assert(self@[y as int] != other@[y as int]);
                return false;
            }
            y = y + 1;
        }
        assert(self@ =~= other@);
        true
    }
}

impl Eq for Universe {

}

impl PartialEqSpecImpl for Universe {
    open spec fn obeys_eq_spec() -> bool {
        true
    }

    open spec fn eq_spec(&self, other: &Universe) -> bool {
        &&& self.spec_width() == other.spec_width()
        &&& self.spec_height() == other.spec_height()
        &&& self@ == other@
    }
}

impl Clone for Universe {
    /// Copies the universe: the copy has the same dimensions and holds the
    /// same grid.
    fn clone(&self) -> (copy: Self)
        ensures
            copy.spec_width() == self.spec_width(),
            copy.spec_height() == self.spec_height(),
            copy@ == self@,
    {
        let cells = self.cells.clone();
        let copy = Universe { width: self.width, height: self.height, cells };
        assert(copy@ =~~= self@);
        copy
    }
}

impl Universe {
    /// The number of columns.
    pub closed spec fn spec_width(&self) -> u32 {
        self.width
    }

    /// The number of rows.
    pub closed spec fn spec_height(&self) -> u32 {
        self.height
    }

    /// The invariant of the type: the grid has `height` rows of `width`
    /// cells each.
    pub open spec fn wf(&self) -> bool {
        rectangular(self@, self.spec_width() as int, self.spec_height() as int)
    }

    /// Builds a universe of the given dimensions that holds the seed
    /// pattern.
    pub fn new(width: u32, height: u32) -> (universe: Universe)
        ensures
            universe.wf(),
            universe.spec_width() == width,
            universe.spec_height() == height,
            universe@ == seeded_grid(width as nat, height as nat),
    {
        let mut cells: Vec<Vec<Cell>> = Vec::new();
        let mut y: u32 = 0;
        while y < height
            invariant
                y <= height,
                cells@.len() == y,
                forall|j: int|
                    0 <= j < y ==> (#[trigger] cells@[j])@ == seeded_grid(
                        width as nat,
                        height as nat,
                    )[j],
            decreases height - y,
        {
            let mut row: Vec<Cell> = Vec::new();
            let mut x: u32 = 0;
            while x < width
                invariant
                    x <= width,
                    y < height,
                    row@.len() == x,
                    forall|i: int| 0 <= i < x ==> #[trigger] row@[i] == seed_cell(y * width + i),
                decreases width - x,
            {
                assert(y * width <= 0xffff_ffff * 0xffff_ffff) by (nonlinear_arith)
                    requires
                        0 <= y <= 0xffff_ffff,
                        0 <= width <= 0xffff_ffff,
                ;
                let index: u64 = (y as u64) * (width as u64) + (x as u64);
                let cell = if index % 2 == 0 || index % 7 == 0 {
                    Cell::Alive
                } else {
                    Cell::Dead
                };
                row.push(cell);
                x = x + 1;
            }
            assert(row@ =~= seeded_grid(width as nat, height as nat)[y as int]);
            cells.push(row);
            y = y + 1;
        }
        let universe = Universe { width, height, cells };
        assert(universe@ =~= seeded_grid(width as nat, height as nat));
        universe
    }

    /// Tells whether `buffer` encodes a grid of the given dimensions, which
    /// is what `from_vec` asks of its arguments.
    pub fn is_valid_buffer(buffer: &Vec<u8>, width: u32, height: u32) -> (valid: bool)
        ensures
            valid == valid_buffer(buffer@, width as nat, height as nat),
    {
        if width == 0 || height == 0 {
            return false;
        }
        assert(width * height <= 0xffff_ffff * 0xffff_ffff) by (nonlinear_arith)
            requires
                0 <= width <= 0xffff_ffff,
                0 <= height <= 0xffff_ffff,
        ;
        let cells: u64 = (width as u64) * (height as u64);
        if buffer.len() as u64 != cells {
            return false;
        }
        let mut i: usize = 0;
        while i < buffer.len()
            invariant
                i <= buffer.len(),
                forall|j: int| 0 <= j < i ==> Cell::spec_from_code(#[trigger] buffer@[j]) is Some,
            decreases buffer.len() - i,
        {
            if buffer[i] > 1 {
                return false;
            }
            i = i + 1;
        }
        true
    }

    /// Builds a universe from a row-major buffer of cell codes, one byte
    /// per cell.
    pub fn from_vec(arr: Vec<u8>, width: u32, height: u32) -> (universe: Universe)
        requires
            valid_buffer(arr@, width as nat, height as nat),
        ensures
            universe.wf(),
            universe.spec_width() == width,
            universe.spec_height() == height,
            universe@ == grid_from_buffer(arr@, width as nat, height as nat),
    {
        let ghost grid = grid_from_buffer(arr@, width as nat, height as nat);
        let len = arr.len();
        let mut cells: Vec<Vec<Cell>> = Vec::new();
        let mut y: u32 = 0;
        while y < height
            invariant
                y <= height,
                valid_buffer(arr@, width as nat, height as nat),
                grid == grid_from_buffer(arr@, width as nat, height as nat),
                len == arr@.len(),
                cells@.len() == y,
                forall|j: int| 0 <= j < y ==> (#[trigger] cells@[j])@ == grid[j],
            decreases height - y,
        {
            let mut row: Vec<Cell> = Vec::new();
            let mut x: u32 = 0;
            while x < width
                invariant
                    x <= width,
                    y < height,
                    valid_buffer(arr@, width as nat, height as nat),
                    len == arr@.len(),
                    row@.len() == x,
                    forall|i: int|
                        0 <= i < x ==> #[trigger] row@[i] == Cell::spec_from_code(
                            arr@[y * width + i],
                        ).unwrap(),
                decreases width - x,
            {
                proof {
                    lemma_index_in_buffer(y as int, x as int, width as int, height as int);
                }
                let index: usize = (y as usize) * (width as usize) + (x as usize);
                let cell = if arr[index] == 0 {
                    Cell::Dead
                } else {
                    Cell::Alive
                };
                row.push(cell);
                x = x + 1;
            }
            assert(row@ =~= grid[y as int]);
            cells.push(row);
            y = y + 1;
        }
        let universe = Universe { width, height, cells };
        assert(universe@ =~= grid);
        universe
    }

    /// Returns the number of columns.
    #[verifier::when_used_as_spec(spec_width)]
    pub fn width(&self) -> (width: u32)
        ensures
            width == self.spec_width(),
    {
        self.width
    }

    /// Returns the number of rows.
    #[verifier::when_used_as_spec(spec_height)]
    pub fn height(&self) -> (height: u32)
        ensures
            height == self.spec_height(),
    {
        self.height
    }

    /// Returns the whole grid, row by row.
    pub fn get_cells(&self) -> (cells: &Vec<Vec<Cell>>)
        ensures
            rows_view(cells@) == self@,
    {
        &self.cells
    }

    /// Returns row `row` of the grid. The borrow ends before the grid can
    /// next be changed.
    pub fn cells(&self, row: usize) -> (cells: &[Cell])
        requires
            self.wf(),
            row < self.spec_height(),
        ensures
            cells@ == self@[row as int],
    {
        self.cells[row].as_slice()
    }

    /// Sets the number of rows and resets every cell to dead.
    pub fn set_height(&mut self, height: u32)
        requires
            old(self).wf(),
        ensures
            final(self).wf(),
            final(self).spec_width() == old(self).spec_width(),
            final(self).spec_height() == height,
            final(self)@ == dead_grid(old(self).spec_width() as nat, height as nat),
    {
        self.height = height;
        self.cells = dead_rows(self.width, height);
    }

    /// Sets the number of columns and resets every cell to dead.
    pub fn set_width(&mut self, width: u32)
        requires
            old(self).wf(),
        ensures
            final(self).wf(),
            final(self).spec_width() == width,
            final(self).spec_height() == old(self).spec_height(),
            final(self)@ == dead_grid(width as nat, old(self).spec_height() as nat),
    {
        self.width = width;
        self.cells = dead_rows(width, self.height);
    }

    /// Marks the cells at the given `(row, column)` pairs alive and leaves
    /// every other cell as it is.
    pub fn set_cells(&mut self, cells: &[(usize, usize)])
        requires
            old(self).wf(),
            coords_in_bounds(
                cells@,
                old(self).spec_width() as int,
                old(self).spec_height() as int,
            ),
        ensures
            final(self).wf(),
            final(self).spec_width() == old(self).spec_width(),
            final(self).spec_height() == old(self).spec_height(),
            final(self)@ == with_alive(old(self)@, cells@),
    {
        let mut i: usize = 0;
        assert(self@ =~~= with_alive(self@, cells@.take(0)));
        while i < cells.len()
            invariant
                i <= cells.len(),
                self.wf(),
                self.width == old(self).width,
                self.height == old(self).height,
                old(self).wf(),
                coords_in_bounds(cells@, self.width as int, self.height as int),
                self@ == with_alive(old(self)@, cells@.take(i as int)),
            decreases cells.len() - i,
        {
            let (y, x) = cells[i];
            let ghost before = self@;
            assert(before[y as int].len() == self.width);
            self.cells[y][x] = Cell::Alive;
            proof {
                let seen = cells@.take(i as int);
                let grown = cells@.take(i + 1);
                assert(self@ =~= before.update(
                    y as int,
                    before[y as int].update(x as int, Cell::Alive),
                ));
                assert forall|r: int, c: int|
                    0 <= r < self.height && 0 <= c < self.width implies marked(grown, r, c) == (
                    marked(seen, r, c) || (r == y && c == x)) by {
                    if marked(seen, r, c) {
                        let k = choose|k: int|
                            0 <= k < seen.len() && (#[trigger] seen[k]).0 == r && seen[k].1 == c;
                        assert(grown[k] == seen[k]);
                    }
                    if r == y && c == x {
                        assert(grown[i as int] == cells@[i as int]);
                    }
                    if marked(grown, r, c) {
                        let k = choose|k: int|
                            0 <= k < grown.len() && (#[trigger] grown[k]).0 == r && grown[k].1 == c;
                        if k < i {
                            assert(seen[k] == grown[k]);
                        }
                    }
                }
                assert(self@ =~~= with_alive(old(self)@, grown));
            }
            i = i + 1;
        }
        assert(cells@.take(cells.len() as int) =~= cells@);
    }

    /// Draws the grid as text: one line for each row, one glyph for each
    /// cell, a line break after each row.
    pub fn render(&self) -> (text: String)
        requires
            self.wf(),
        ensures
            text@ == render_grid(self@),
    {
        let height = self.height as usize;
        let width = self.width as usize;
        let mut text = String::new();
        let mut y: usize = 0;
        assert(self@.take(0) =~= Seq::<Seq<Cell>>::empty());
        while y < height
            invariant
                self.wf(),
                height == self.height,
                width == self.width,
                y <= height,
                text@ == render_grid(self@.take(y as int)),
            decreases height - y,
        {
            let ghost done = text@;
            let ghost row = self@[y as int];
            let mut x: usize = 0;
            assert(glyphs(row.take(0)) =~= Seq::<char>::empty());
            while x < width
                invariant
                    self.wf(),
                    height == self.height,
                    width == self.width,
                    y < height,
                    x <= width,
                    row == self@[y as int],
                    text@ == done + glyphs(row.take(x as int)),
                decreases width - x,
            {
                match self.cells[y][x] {
                    Cell::Alive => {
                        proof {
                            reveal_strlit("◼");
                        }
                        text.append("◼");
                    },
                    Cell::Dead => {
                        proof {
                            reveal_strlit("◻");
                        }
                        text.append("◻");
                    },
                }
                assert(glyphs(row.take(x + 1)) =~= glyphs(row.take(x as int)).push(
                    row[x as int].spec_glyph(),
                ));
                x = x + 1;
            }
            proof {
                reveal_strlit("\n");
            }
            text.append("\n");
            proof {
                assert(row.take(width as int) =~= row);
                assert(text@ =~= done + render_row(row));
                let shown = self@.take(y + 1);
                assert(shown.drop_last() =~= self@.take(y as int));
                assert(shown.last() == row);
            }
            y = y + 1;
        }
        assert(self@.take(height as int) =~= self@);
        text
    }

    /// Counts the live cells among the eight positions around `(y, x)`,
    /// with the grid's edges joined to a torus.
    pub fn cell_alive_neighbors(&self, y: usize, x: usize) -> (count: usize)
        requires
            self.wf(),
            y < self.spec_height(),
            x < self.spec_width(),
        ensures
            count == live_neighbors(self@, y as int, x as int),
    {
        let height = self.height as usize;
        let width = self.width as usize;
        proof {
            lemma_wrap_steps(y as int, height as int);
            lemma_wrap_steps(x as int, width as int);
        }
        let up = step_back(y, height);
        let down = step_forward(y, height);
        let left = step_back(x, width);
        let right = step_forward(x, width);
        self.alive_count(up, left) + self.alive_count(up, x) + self.alive_count(up, right)
            + self.alive_count(y, left) + self.alive_count(y, right)
            + self.alive_count(down, left) + self.alive_count(down, x)
            + self.alive_count(down, right)
    }

    /// 1 where the cell at `(y, x)` is alive, else 0.
    fn alive_count(&self, y: usize, x: usize) -> (count: usize)
        requires
            self.wf(),
            y < self.spec_height(),
            x < self.spec_width(),
        ensures
            count == if self@[y as int][x as int] == Cell::Alive {
                1int
            } else {
                0int
            },
    {
        assert(self@[y as int].len() == self.width);
        match self.cells[y][x] {
            Cell::Alive => 1,
            Cell::Dead => 0,
        }
    }

    /// Advances the grid by one generation. Every cell takes its next
    /// state from the neighbours it had before the call.
    pub fn next_tick(&mut self)
        requires
            old(self).wf(),
        ensures
            final(self).wf(),
            final(self).spec_width() == old(self).spec_width(),
            final(self).spec_height() == old(self).spec_height(),
            final(self)@ == next_generation(old(self)@),
    {
        let ghost next = next_generation(self@);
        let height = self.height as usize;
        let width = self.width as usize;
        let mut cells: Vec<Vec<Cell>> = Vec::new();
        let mut y: usize = 0;
        while y < height
            invariant
                *self == *old(self),
                self.wf(),
                height == self.height,
                width == self.width,
                next == next_generation(self@),
                y <= height,
                cells@.len() == y,
                forall|j: int| 0 <= j < y ==> (#[trigger] cells@[j])@ == next[j],
            decreases height - y,
        {
            let mut row: Vec<Cell> = Vec::new();
            let mut x: usize = 0;
            while x < width
                invariant
                    *self == *old(self),
                    self.wf(),
                    height == self.height,
                    width == self.width,
                    y < height,
                    x <= width,
                    row@.len() == x,
                    forall|i: int|
                        0 <= i < x ==> #[trigger] row@[i] == next_state(
                            self@[y as int][i],
                            live_neighbors(self@, y as int, i),
                        ),
                decreases width - x,
            {
                let neighbors = self.cell_alive_neighbors(y, x);
                assert(self@[y as int].len() == width);
                let cell = match self.cells[y][x] {
                    Cell::Alive => if neighbors == 2 || neighbors == 3 {
                        Cell::Alive
                    } else {
                        Cell::Dead
                    },
                    Cell::Dead => if neighbors == 3 {
                        Cell::Alive
                    } else {
                        Cell::Dead
                    },
                };
                row.push(cell);
                x = x + 1;
            }
            assert(self@[y as int].len() == width);
            assert(row@ =~= next[y as int]);
            cells.push(row);
            y = y + 1;
        }
        self.cells = cells;
        assert(self@ =~= next);
    }
}

/// Tells whether two rows hold the same cells.
fn same_row(left: &Vec<Cell>, right: &Vec<Cell>) -> (same: bool)
    ensures
        same == (left@ == right@),
{
    if left.len() != right.len() {
        return false;
    }
    let mut x: usize = 0;
    while x < left.len()
        invariant
            x <= left.len(),
            left.len() == right.len(),
            forall|i: int| 0 <= i < x ==> left@[i] == right@[i],
        decreases left.len() - x,
    {
        if left[x] != right[x] {
            return false;
        }
        x = x + 1;
    }
    assert(left@ =~= right@);
    true
}

/// Builds `height` rows of `width` dead cells each.
fn dead_rows(width: u32, height: u32) -> (rows: Vec<Vec<Cell>>)
    ensures
        rows_view(rows@) == dead_grid(width as nat, height as nat),
{
    let mut rows: Vec<Vec<Cell>> = Vec::new();
    let mut y: u32 = 0;
    while y < height
        invariant
            y <= height,
            rows@.len() == y,
            forall|j: int|
                0 <= j < y ==> (#[trigger] rows@[j])@ == dead_grid(width as nat, height as nat)[j],
        decreases height - y,
    {
        let mut row: Vec<Cell> = Vec::new();
        let mut x: u32 = 0;
        while x < width
            invariant
                x <= width,
                row@.len() == x,
                forall|i: int| 0 <= i < x ==> #[trigger] row@[i] == Cell::Dead,
            decreases width - x,
        {
            row.push(Cell::Dead);
            x = x + 1;
        }
        assert(row@ =~= dead_grid(width as nat, height as nat)[y as int]);
        rows.push(row);
        y = y + 1;
    }
    assert(rows_view(rows@) =~= dead_grid(width as nat, height as nat));
    rows
}

/// The index one step before `index` on a circle of `dimension` places.
fn step_back(index: usize, dimension: usize) -> (before: usize)
    requires
        index < dimension,
    ensures
        before < dimension,
        before == wrap(index as int, -1, dimension as int),
{
    proof {
        lemma_wrap_steps(index as int, dimension as int);
    }
    if index == 0 {
        dimension - 1
    } else {
        index - 1
    }
}

/// The index one step after `index` on a circle of `dimension` places.
fn step_forward(index: usize, dimension: usize) -> (after: usize)
    requires
        index < dimension,
    ensures
        after < dimension,
        after == wrap(index as int, 1, dimension as int),
{
    proof {
        lemma_wrap_steps(index as int, dimension as int);
    }
    if index + 1 == dimension {
        0
    } else {
        index + 1
    }
}

} // verus!
