//! Laws of the engine, proved from the contracts of its operations and
//! from the model of the grid.

use vstd::prelude::*;
use crate::cell::Cell;
use crate::grid::{
    dead_grid, grid_from_buffer, lemma_index_in_buffer, live_neighbors, next_generation,
    rectangular, render_grid, render_row, valid_buffer, Grid,
};
use crate::universe::{rows_view, Universe};

verus! {

/// Seeding is deterministic: two universes that `new` returns for the same
/// dimensions have the same dimensions and hold the same grid.
pub proof fn lemma_new_is_deterministic(
    width: u32,
    height: u32,
    first: Universe,
    second: Universe,
)
    requires
        call_ensures(Universe::new, (width, height), first),
        call_ensures(Universe::new, (width, height), second),
    ensures
        first.spec_width() == second.spec_width(),
        first.spec_height() == second.spec_height(),
        first@ == second@,
{
}

/// The next generation of a rectangular grid is a grid of the same
/// dimensions.
pub proof fn lemma_next_generation_keeps_dimensions(grid: Grid, width: int, height: int)
    requires
        rectangular(grid, width, height),
    ensures
        rectangular(next_generation(grid), width, height),
{
}

/// A live cell with no live cell around it is dead in the next
/// generation.
pub proof fn lemma_isolated_cell_dies(grid: Grid, y: int, x: int)
    requires
        0 <= y < grid.len(),
        0 <= x < grid[y].len(),
        grid[y][x] == Cell::Alive,
        live_neighbors(grid, y, x) == 0,
    ensures
        next_generation(grid)[y][x] == Cell::Dead,
{
}

/// A dead cell is alive in the next generation if it has exactly three
/// live neighbours, and stays dead with any other number of them, two and
/// four among these.
pub proof fn lemma_birth_on_exactly_three(grid: Grid, y: int, x: int)
    requires
        0 <= y < grid.len(),
        0 <= x < grid[y].len(),
        grid[y][x] == Cell::Dead,
    ensures
        live_neighbors(grid, y, x) == 3 ==> next_generation(grid)[y][x] == Cell::Alive,
        live_neighbors(grid, y, x) == 2 ==> next_generation(grid)[y][x] == Cell::Dead,
        live_neighbors(grid, y, x) == 4 ==> next_generation(grid)[y][x] == Cell::Dead,
        live_neighbors(grid, y, x) != 3 ==> next_generation(grid)[y][x] == Cell::Dead,
{
}

/// Decoding the code of a state gives the state back.
pub proof fn lemma_code_round_trip(cell: Cell)
    ensures
        Cell::spec_from_code(cell.spec_code()) == Some(cell),
{
}

/// A byte that decodes to a state is the code of that state.
pub proof fn lemma_decode_is_code(code: u8)
    requires
        Cell::spec_from_code(code) is Some,
    ensures
        Cell::spec_from_code(code).unwrap().spec_code() == code,
{
}

/// A universe built from a valid buffer hands the buffer's pattern back:
/// the grid that `get_cells` returns has the buffer's dimensions, and its
/// cell in row `y` and column `x` is the state whose code is the byte at
/// `y * width + x`.
pub proof fn lemma_buffer_round_trip(
    arr: Vec<u8>,
    width: u32,
    height: u32,
    universe: Universe,
    cells: &Vec<Vec<Cell>>,
)
    requires
        valid_buffer(arr@, width as nat, height as nat),
        call_ensures(Universe::from_vec, (arr, width, height), universe),
        call_ensures(Universe::get_cells, (&universe,), cells),
    ensures
        cells@.len() == height,
        forall|y: int| 0 <= y < height ==> (#[trigger] cells@[y])@.len() == width,
        forall|y: int, x: int|
            0 <= y < height && 0 <= x < width ==> (#[trigger] cells@[y]@[x]).spec_code()
                == arr@[y * width + x],
{
    assert(rows_view(cells@) == grid_from_buffer(arr@, width as nat, height as nat));
    assert forall|y: int, x: int| 0 <= y < height && 0 <= x < width implies (
    #[trigger] cells@[y]@[x]).spec_code() == arr@[y * width + x] by {
        lemma_index_in_buffer(y, x, width as int, height as int);
        assert(rows_view(cells@)[y][x] == cells@[y]@[x]);
    }
    assert forall|y: int| 0 <= y < height implies (#[trigger] cells@[y])@.len() == width by {
        assert(rows_view(cells@)[y] == cells@[y]@);
    }
}

/// A grid of dead cells has the dimensions it was made for, and every
/// cell of it is dead.
pub proof fn lemma_dead_grid_is_dead(width: nat, height: nat)
    ensures
        rectangular(dead_grid(width, height), width as int, height as int),
        forall|y: int, x: int|
            0 <= y < height && 0 <= x < width ==> #[trigger] dead_grid(width, height)[y][x]
                == Cell::Dead,
{
}

/// After a resize the grid that `get_cells` returns has the new
/// dimensions and holds dead cells only. `universe` is the universe as
/// `set_width` and `set_height` leave it: with the grid of dead cells of
/// the new dimensions.
pub proof fn lemma_resize_resets(
    universe: Universe,
    width: u32,
    height: u32,
    cells: &Vec<Vec<Cell>>,
)
    requires
        universe@ == dead_grid(width as nat, height as nat),
        call_ensures(Universe::get_cells, (&universe,), cells),
    ensures
        cells@.len() == height,
        forall|y: int| 0 <= y < height ==> (#[trigger] cells@[y])@.len() == width,
        forall|y: int, x: int|
            0 <= y < height && 0 <= x < width ==> #[trigger] cells@[y]@[x] == Cell::Dead,
{
    assert(rows_view(cells@).len() == cells@.len());
    assert forall|y: int| 0 <= y < height implies (#[trigger] cells@[y])@ == dead_grid(
        width as nat,
        height as nat,
    )[y] by {
        assert(rows_view(cells@)[y] == cells@[y]@);
    }
}

/// The layout of the rendered text: a grid of `height` rows of `width`
/// cells is drawn as `height` lines of `width + 1` characters each, the
/// glyph of the cell in row `y` and column `x` at place `x` of line `y`,
/// and a line break at the end of every line.
pub proof fn lemma_render_layout(grid: Grid, width: int, height: int)
    requires
        rectangular(grid, width, height),
    ensures
        render_grid(grid).len() == height * (width + 1),
        forall|y: int, x: int|
            0 <= y < height && 0 <= x < width ==> render_grid(grid)[y * (width + 1) + x]
                == (#[trigger] grid[y][x]).spec_glyph(),
        forall|y: int|
            0 <= y < height ==> (#[trigger] grid[y]).len() == width && render_grid(grid)[y * (width
                + 1) + width] == '\n',
    decreases grid.len(),
{
    if grid.len() == 0 {
        assert(height * (width + 1) == 0) by (nonlinear_arith)
            requires
                height == 0,
        ;
    } else {
        let above = grid.drop_last();
        let last = grid.last();
        let text = render_grid(above);
        let line = render_row(last);
        lemma_render_layout(above, width, height - 1);
        assert(render_grid(grid) == text + line);
        assert(last == grid[height - 1]);
        assert(line.len() == width + 1);
        assert((height - 1) * (width + 1) + (width + 1) == height * (width + 1))
            by (nonlinear_arith);
        assert forall|y: int, x: int| 0 <= y < height && 0 <= x < width implies render_grid(
            grid,
        )[y * (width + 1) + x] == (#[trigger] grid[y][x]).spec_glyph() by {
            if y < height - 1 {
                lemma_index_in_buffer(y, x, width + 1, height - 1);
                assert(above[y][x] == grid[y][x]);
                assert(render_grid(grid)[y * (width + 1) + x] == text[y * (width + 1) + x]);
            } else {
                assert(render_grid(grid)[y * (width + 1) + x] == line[x]);
            }
        }
        assert forall|y: int| 0 <= y < height implies (#[trigger] grid[y]).len() == width
            && render_grid(grid)[y * (width + 1) + width] == '\n' by {
            if y < height - 1 {
                lemma_index_in_buffer(y, width, width + 1, height - 1);
                assert(above[y] == grid[y]);
                assert(render_grid(grid)[y * (width + 1) + width] == text[y * (width + 1)
                    + width]);
            } else {
                assert(render_grid(grid)[y * (width + 1) + width] == line[width]);
            }
        }
    }
}

} // verus!
