//! The mathematical model of the grid: a sequence of rows of cells.
//!
//! This module holds ghost code only. The executable [`crate::Universe`]
//! states its contracts over these functions.

use vstd::prelude::*;
use vstd::arithmetic::div_mod::lemma_fundamental_div_mod_converse_mod;
use crate::cell::Cell;

verus! {

/// A grid as a sequence of rows, each row a sequence of cells.
pub type Grid = Seq<Seq<Cell>>;

/// Whether `grid` has `height` rows of `width` cells each.
pub open spec fn rectangular(grid: Grid, width: int, height: int) -> bool {
    &&& grid.len() == height
    &&& forall|y: int| 0 <= y < grid.len() ==> (#[trigger] grid[y]).len() == width
}

/// The grid of the given dimensions in which every cell is dead.
pub open spec fn dead_grid(width: nat, height: nat) -> Grid {
    Seq::new(height, |y: int| Seq::new(width, |x: int| Cell::Dead))
}

/// The seed state of the cell with row-major index `index`: alive where the
/// index is a multiple of 2 or of 7.
pub open spec fn seed_cell(index: int) -> Cell {
    if index % 2 == 0 || index % 7 == 0 {
        Cell::Alive
    } else {
        Cell::Dead
    }
}

/// The seed pattern on a grid of the given dimensions.
pub open spec fn seeded_grid(width: nat, height: nat) -> Grid {
    Seq::new(height, |y: int| Seq::new(width, |x: int| seed_cell(y * width + x)))
}

/// Whether `buffer` encodes a grid of the given dimensions: both
/// dimensions are positive, the buffer has one byte per cell, and every
/// byte is a cell code.
pub open spec fn valid_buffer(buffer: Seq<u8>, width: nat, height: nat) -> bool {
    &&& width > 0
    &&& height > 0
    &&& buffer.len() == width * height
    &&& forall|i: int| 0 <= i < buffer.len() ==> Cell::spec_from_code(#[trigger] buffer[i]) is Some
}

/// The grid that a row-major buffer of cell codes encodes.
pub open spec fn grid_from_buffer(buffer: Seq<u8>, width: nat, height: nat) -> Grid {
    Seq::new(
        height,
        |y: int| Seq::new(width, |x: int| Cell::spec_from_code(buffer[y * width + x]).unwrap()),
    )
}

/// A cell index inside a grid of row length `width` lies inside a buffer
/// of `width * height` bytes.
pub proof fn lemma_index_in_buffer(y: int, x: int, width: int, height: int)
    requires
        0 <= y < height,
        0 <= x < width,
    ensures
        0 <= y * width + x < width * height,
        0 <= y * width <= y * width + x,
        width * height == height * width,
{
    assert(0 <= y * width) by (nonlinear_arith)
        requires
            0 <= y,
            0 <= width,
    ;
    assert(y * width + width <= height * width) by (nonlinear_arith)
        requires
            y + 1 <= height,
            0 <= width,
    ;
    assert(height * width == width * height) by (nonlinear_arith);
}

/// Whether every coordinate pair `(row, column)` of `coords` lies inside a
/// grid of the given dimensions.
pub open spec fn coords_in_bounds(coords: Seq<(usize, usize)>, width: int, height: int) -> bool {
    forall|i: int|
        0 <= i < coords.len() ==> (#[trigger] coords[i]).0 < height && coords[i].1 < width
}

/// Whether `coords` names the cell in row `y` and column `x`.
pub open spec fn marked(coords: Seq<(usize, usize)>, y: int, x: int) -> bool {
    exists|i: int| 0 <= i < coords.len() && (#[trigger] coords[i]).0 == y && coords[i].1 == x
}

/// The grid in which the cells that `coords` names are alive and every
/// other cell is as in `grid`.
pub open spec fn with_alive(grid: Grid, coords: Seq<(usize, usize)>) -> Grid {
    Seq::new(
        grid.len(),
        |y: int|
            Seq::new(
                grid[y].len(),
                |x: int|
                    if marked(coords, y, x) {
                        Cell::Alive
                    } else {
                        grid[y][x]
                    },
            ),
    )
}

/// The index reached from `index` by `delta` steps along a circle of
/// `dimension` places: one step past either end comes back in at the
/// other.
pub open spec fn wrap(index: int, delta: int, dimension: int) -> int {
    (index + delta + dimension) % dimension
}

/// 1 where the cell `(dy, dx)` away from `(y, x)` on the torus is alive,
/// else 0.
pub open spec fn live_at(grid: Grid, y: int, x: int, dy: int, dx: int) -> nat {
    if grid[wrap(y, dy, grid.len() as int)][wrap(x, dx, grid[y].len() as int)] == Cell::Alive {
        1
    } else {
        0
    }
}

/// The number of live cells among the eight positions around `(y, x)` on
/// the torus. On a grid with fewer than three rows or columns a cell is
/// counted once for each position at which it is met.
pub open spec fn live_neighbors(grid: Grid, y: int, x: int) -> nat {
    live_at(grid, y, x, -1, -1) + live_at(grid, y, x, -1, 0) + live_at(grid, y, x, -1, 1)
        + live_at(grid, y, x, 0, -1) + live_at(grid, y, x, 0, 1)
        + live_at(grid, y, x, 1, -1) + live_at(grid, y, x, 1, 0) + live_at(grid, y, x, 1, 1)
}

/// The state of a cell in the next generation, from its state and the
/// number of its live neighbours: a live cell survives on two or three, a
/// dead cell comes alive on exactly three.
pub open spec fn next_state(cell: Cell, neighbors: nat) -> Cell {
    match cell {
        Cell::Alive => if neighbors == 2 || neighbors == 3 {
            Cell::Alive
        } else {
            Cell::Dead
        },
        Cell::Dead => if neighbors == 3 {
            Cell::Alive
        } else {
            Cell::Dead
        },
    }
}

/// The next generation of a grid: every cell takes its next state from
/// the neighbours that it has in `grid`.
pub open spec fn next_generation(grid: Grid) -> Grid {
    Seq::new(
        grid.len(),
        |y: int|
            Seq::new(grid[y].len(), |x: int| next_state(grid[y][x], live_neighbors(grid, y, x))),
    )
}

/// The glyphs of a run of cells, one for each cell.
pub open spec fn glyphs(cells: Seq<Cell>) -> Seq<char> {
    Seq::new(cells.len(), |x: int| cells[x].spec_glyph())
}

/// The line of text for one row: the glyphs of its cells, then a line
/// break.
pub open spec fn render_row(row: Seq<Cell>) -> Seq<char> {
    glyphs(row).push('\n')
}

/// The text for a grid: the lines of its rows, first row first.
pub open spec fn render_grid(grid: Grid) -> Seq<char>
    decreases grid.len(),
{
    if grid.len() == 0 {
        Seq::empty()
    } else {
        render_grid(grid.drop_last()) + render_row(grid.last())
    }
}

/// Where single steps from an index on a circle lead: back from the first
/// place to the last, on from the last place to the first, and otherwise
/// to the place next to it.
pub proof fn lemma_wrap_steps(index: int, dimension: int)
    requires
        0 <= index < dimension,
    ensures
        wrap(index, -1, dimension) == if index == 0 {
            dimension - 1
        } else {
            index - 1
        },
        wrap(index, 0, dimension) == index,
        wrap(index, 1, dimension) == if index + 1 == dimension {
            0
        } else {
            index + 1
        },
{
    if index == 0 {
        lemma_fundamental_div_mod_converse_mod(index - 1 + dimension, dimension, 0, dimension - 1);
    } else {
        lemma_fundamental_div_mod_converse_mod(index - 1 + dimension, dimension, 1, index - 1);
    }
    lemma_fundamental_div_mod_converse_mod(index + dimension, dimension, 1, index);
    if index + 1 == dimension {
        lemma_fundamental_div_mod_converse_mod(index + 1 + dimension, dimension, 2, 0);
    } else {
        lemma_fundamental_div_mod_converse_mod(index + 1 + dimension, dimension, 1, index + 1);
    }
}

} // verus!
