use conway_game_of_life::{Cell, Universe};

const A: Cell = Cell::Alive;
const D: Cell = Cell::Dead;

fn empty(width: u32, height: u32) -> Universe {
    let mut universe = Universe::new(0, 0);
    universe.set_height(height);
    universe.set_width(width);
    universe
}

fn with_cells(width: u32, height: u32, cells: &[(usize, usize)]) -> Universe {
    let mut universe = empty(width, height);
    universe.set_cells(cells);
    universe
}

fn live_cells(universe: &Universe) -> Vec<(usize, usize)> {
    let mut live = Vec::new();
    for (y, row) in universe.get_cells().iter().enumerate() {
        for (x, cell) in row.iter().enumerate() {
            if *cell == Cell::Alive {
                live.push((y, x));
            }
        }
    }
    live
}

fn input_spaceship() -> Universe {
    let mut universe = Universe::new(0, 0);

    universe.set_height(6);
    universe.set_width(6);
    universe.set_cells(&[(1, 2), (2, 3), (3, 1), (3, 2), (3, 3)]);

    universe
}

fn expected_spaceship() -> Universe {
    let mut universe = Universe::new(0, 0);

    universe.set_width(6);
    universe.set_height(6);
    universe.set_cells(&[(2, 1), (2, 3), (3, 2), (3, 3), (4, 2)]);

    universe
}

#[test]
fn test_saturating_remove() {
    assert_eq!(0_usize.saturating_sub(5), 0);
    assert_eq!(-1_i32 % 64, -1);
}

#[test]
fn test_create_universe() {
    let universe = Universe::new(4, 4);

    assert_eq!(
        *universe.get_cells(),
        [
            [Cell::Alive, Cell::Dead, Cell::Alive, Cell::Dead],
            [Cell::Alive, Cell::Dead, Cell::Alive, Cell::Alive],
            [Cell::Alive, Cell::Dead, Cell::Alive, Cell::Dead],
            [Cell::Alive, Cell::Dead, Cell::Alive, Cell::Dead]
        ]
    );
}

#[test]
fn test_universe_tick() {
    let mut universe = Universe::new(4, 4);

    universe.next_tick();
    universe.next_tick();
    universe.next_tick();
}

#[test]
fn test_tick() {
    let mut input_universe = input_spaceship();
    let expected_universe = expected_spaceship();

    input_universe.next_tick();

    assert_eq!(input_universe.get_cells(), expected_universe.get_cells());
}

#[test]
fn new_is_deterministic() {
    let first = Universe::new(9, 5);
    let second = Universe::new(9, 5);
    assert_eq!(first.get_cells(), second.get_cells());
    assert_eq!(first.width(), second.width());
    assert_eq!(first.height(), second.height());
    assert_eq!(first, second);
}

#[test]
fn new_reports_its_dimensions() {
    let universe = Universe::new(7, 3);
    assert_eq!(universe.width(), 7);
    assert_eq!(universe.height(), 3);
    assert_eq!(universe.get_cells().len(), 3);
    for row in universe.get_cells() {
        assert_eq!(row.len(), 7);
    }
}

#[test]
fn seed_rule_on_four_by_four() {
    let universe = Universe::new(4, 4);
    let cells = universe.get_cells();
    assert_eq!(cells[0][0], A);
    assert_eq!(cells[0][1], D);
    assert_eq!(cells[1][3], A);
    assert_eq!(cells[0], [A, D, A, D]);
    assert_eq!(cells[1], [A, D, A, A]);
}

#[test]
fn seed_rule_follows_the_row_major_index() {
    // Row 1 of a grid five wide holds the indices 5 to 9; row 2 holds 10 to 14.
    let universe = Universe::new(5, 3);
    assert_eq!(
        *universe.get_cells(),
        [[A, D, A, D, A], [D, A, A, A, D], [A, D, A, D, A]]
    );
}

#[test]
fn seed_rule_past_the_range_of_small_products() {
    // Index 21 = 3 * 7 is odd and a multiple of 7; 35 = 5 * 7 likewise.
    let universe = Universe::new(7, 6);
    let cells = universe.get_cells();
    assert_eq!(cells[3][0], A);
    assert_eq!(cells[5][0], A);
    assert_eq!(cells[3][2], D);
    assert_eq!(cells[4][1], D);
}

#[test]
fn new_accepts_zero_dimensions() {
    let universe = Universe::new(0, 0);
    assert_eq!(universe.width(), 0);
    assert_eq!(universe.height(), 0);
    assert!(universe.get_cells().is_empty());

    let flat = Universe::new(0, 3);
    assert_eq!(flat.get_cells().len(), 3);
    assert!(flat.get_cells().iter().all(|row| row.is_empty()));

    let thin = Universe::new(3, 0);
    assert_eq!(thin.width(), 3);
    assert!(thin.get_cells().is_empty());
}

#[test]
fn tick_keeps_the_dimensions() {
    let mut universe = Universe::new(7, 4);
    for _ in 0..5 {
        universe.next_tick();
        assert_eq!(universe.width(), 7);
        assert_eq!(universe.height(), 4);
        assert_eq!(universe.get_cells().len(), 4);
        assert!(universe.get_cells().iter().all(|row| row.len() == 7));
    }
}

#[test]
fn tick_on_an_empty_grid_changes_nothing() {
    let mut universe = Universe::new(0, 0);
    universe.next_tick();
    assert!(universe.get_cells().is_empty());

    let mut flat = Universe::new(0, 2);
    flat.next_tick();
    assert_eq!(flat.height(), 2);
    assert_eq!(flat.get_cells().len(), 2);
    assert!(flat.get_cells().iter().all(|row| row.is_empty()));
}

#[test]
fn isolated_cell_dies() {
    let mut universe = with_cells(5, 5, &[(2, 2)]);
    assert_eq!(universe.cell_alive_neighbors(2, 2), 0);
    universe.next_tick();
    assert_eq!(live_cells(&universe), vec![]);
}

#[test]
fn live_cell_survives_on_two_or_three() {
    let mut two = with_cells(6, 6, &[(2, 2), (2, 1), (2, 3)]);
    assert_eq!(two.cell_alive_neighbors(2, 2), 2);
    two.next_tick();
    assert_eq!(two.get_cells()[2][2], A);

    let mut three = with_cells(6, 6, &[(2, 2), (2, 1), (2, 3), (1, 2)]);
    assert_eq!(three.cell_alive_neighbors(2, 2), 3);
    three.next_tick();
    assert_eq!(three.get_cells()[2][2], A);
}

#[test]
fn live_cell_dies_on_one_or_four() {
    let mut one = with_cells(6, 6, &[(2, 2), (2, 1)]);
    assert_eq!(one.cell_alive_neighbors(2, 2), 1);
    one.next_tick();
    assert_eq!(one.get_cells()[2][2], D);

    let mut four = with_cells(6, 6, &[(2, 2), (2, 1), (2, 3), (1, 2), (3, 2)]);
    assert_eq!(four.cell_alive_neighbors(2, 2), 4);
    four.next_tick();
    assert_eq!(four.get_cells()[2][2], D);
}

#[test]
fn dead_cell_is_born_on_exactly_three() {
    let mut three = with_cells(5, 5, &[(1, 1), (1, 2), (1, 3)]);
    assert_eq!(three.cell_alive_neighbors(2, 2), 3);
    three.next_tick();
    assert_eq!(three.get_cells()[2][2], A);
}

#[test]
fn dead_cell_stays_dead_on_two_or_four() {
    let mut two = with_cells(5, 5, &[(1, 1), (1, 2)]);
    assert_eq!(two.cell_alive_neighbors(2, 2), 2);
    two.next_tick();
    assert_eq!(two.get_cells()[2][2], D);

    let mut four = with_cells(5, 5, &[(1, 1), (1, 2), (1, 3), (2, 1)]);
    assert_eq!(four.cell_alive_neighbors(2, 2), 4);
    four.next_tick();
    assert_eq!(four.get_cells()[2][2], D);
}

#[test]
fn glider_moves_one_step() {
    let mut universe = with_cells(6, 6, &[(1, 2), (2, 3), (3, 1), (3, 2), (3, 3)]);
    universe.next_tick();
    assert_eq!(
        live_cells(&universe),
        vec![(2, 1), (2, 3), (3, 2), (3, 3), (4, 2)]
    );
}

#[test]
fn glider_crosses_the_edge() {
    // After four generations a glider has moved one cell down and one to
    // the right; on a torus it comes back in at the opposite edges.
    let mut universe = with_cells(6, 6, &[(3, 4), (4, 5), (5, 3), (5, 4), (5, 5)]);
    for _ in 0..4 {
        universe.next_tick();
    }
    assert_eq!(
        live_cells(&universe),
        vec![(0, 0), (0, 4), (0, 5), (4, 5), (5, 0)]
    );
}

#[test]
fn blinker_turns() {
    let mut universe = with_cells(5, 5, &[(2, 1), (2, 2), (2, 3)]);
    universe.next_tick();
    assert_eq!(live_cells(&universe), vec![(1, 2), (2, 2), (3, 2)]);
    universe.next_tick();
    assert_eq!(live_cells(&universe), vec![(2, 1), (2, 2), (2, 3)]);
}

#[test]
fn tick_reads_only_the_old_generation() {
    // A block is still: every cell of it has three live neighbours, every
    // cell around it at most two. A scan that read cells it had already
    // written would see the same, so a second pattern is checked too: the
    // row of three must turn as a whole.
    let mut block = with_cells(4, 4, &[(1, 1), (1, 2), (2, 1), (2, 2)]);
    block.next_tick();
    assert_eq!(live_cells(&block), vec![(1, 1), (1, 2), (2, 1), (2, 2)]);

    let mut row = with_cells(5, 5, &[(1, 1), (1, 2), (1, 3)]);
    row.next_tick();
    assert_eq!(live_cells(&row), vec![(0, 2), (1, 2), (2, 2)]);
}

#[test]
fn neighbors_wrap_around_the_edges() {
    let universe = with_cells(6, 6, &[(0, 0)]);
    assert_eq!(universe.cell_alive_neighbors(5, 5), 1);
    assert_eq!(universe.cell_alive_neighbors(0, 5), 1);
    assert_eq!(universe.cell_alive_neighbors(5, 0), 1);
    assert_eq!(universe.cell_alive_neighbors(1, 1), 1);
    assert_eq!(universe.cell_alive_neighbors(0, 0), 0);
    assert_eq!(universe.cell_alive_neighbors(3, 3), 0);
    assert_eq!(universe.cell_alive_neighbors(2, 0), 0);
}

#[test]
fn neighbors_count_all_eight_positions() {
    let universe = with_cells(
        3,
        3,
        &[
            (0, 0),
            (0, 1),
            (0, 2),
            (1, 0),
            (1, 1),
            (1, 2),
            (2, 0),
            (2, 1),
            (2, 2),
        ],
    );
    for y in 0..3 {
        for x in 0..3 {
            assert_eq!(universe.cell_alive_neighbors(y, x), 8);
        }
    }
}

#[test]
fn neighbors_on_a_single_cell_grid() {
    // Every one of the eight positions around the only cell is that cell.
    let mut universe = with_cells(1, 1, &[(0, 0)]);
    assert_eq!(universe.cell_alive_neighbors(0, 0), 8);
    universe.next_tick();
    assert_eq!(*universe.get_cells(), [[D]]);

    let dead = empty(1, 1);
    assert_eq!(dead.cell_alive_neighbors(0, 0), 0);
}

#[test]
fn neighbors_on_a_grid_two_wide() {
    // Left and right of a cell is the same other cell.
    let universe = with_cells(2, 3, &[(1, 1)]);
    assert_eq!(universe.cell_alive_neighbors(1, 0), 2);
    assert_eq!(universe.cell_alive_neighbors(0, 0), 2);
    assert_eq!(universe.cell_alive_neighbors(0, 1), 1);
    assert_eq!(universe.cell_alive_neighbors(1, 1), 0);
}

#[test]
fn from_vec_decodes_row_major() {
    let universe = Universe::from_vec(vec![0, 1, 1, 0, 0, 1], 3, 2);
    assert_eq!(universe.width(), 3);
    assert_eq!(universe.height(), 2);
    assert_eq!(*universe.get_cells(), [[D, A, A], [D, D, A]]);
}

#[test]
fn from_vec_round_trip() {
    let buffer: Vec<u8> = vec![1, 0, 0, 1, 1, 1, 0, 0, 0, 1, 0, 1];
    let universe = Universe::from_vec(buffer.clone(), 4, 3);
    let cells = universe.get_cells();
    assert_eq!(cells.len(), 3);
    let mut back: Vec<u8> = Vec::new();
    for row in cells {
        assert_eq!(row.len(), 4);
        for cell in row {
            back.push(cell.code());
        }
    }
    assert_eq!(back, buffer);
}

#[test]
fn from_vec_does_not_hand_the_seed_back() {
    let universe = Universe::from_vec(vec![0, 0, 0, 0], 2, 2);
    assert_eq!(*universe.get_cells(), [[D, D], [D, D]]);
    assert_ne!(universe.get_cells(), Universe::new(2, 2).get_cells());
}

#[test]
fn valid_buffer_is_accepted() {
    assert!(Universe::is_valid_buffer(&vec![0, 1, 1, 0], 2, 2));
    assert!(Universe::is_valid_buffer(&vec![1], 1, 1));
    assert!(Universe::is_valid_buffer(&vec![0, 0, 0], 3, 1));
    assert!(Universe::is_valid_buffer(&vec![0, 0, 0], 1, 3));
}

#[test]
fn buffer_with_a_foreign_byte_is_refused() {
    assert!(!Universe::is_valid_buffer(&vec![0, 1, 2, 0], 2, 2));
    assert!(!Universe::is_valid_buffer(&vec![255], 1, 1));
    assert!(!Universe::is_valid_buffer(&vec![0, 0, 0, 7], 2, 2));
}

#[test]
fn buffer_of_the_wrong_length_is_refused() {
    assert!(!Universe::is_valid_buffer(&vec![0, 1, 1], 2, 2));
    assert!(!Universe::is_valid_buffer(&vec![0, 1, 1, 0, 0], 2, 2));
    assert!(!Universe::is_valid_buffer(&vec![], 1, 1));
}

#[test]
fn buffer_for_a_degenerate_grid_is_refused() {
    assert!(!Universe::is_valid_buffer(&vec![], 0, 0));
    assert!(!Universe::is_valid_buffer(&vec![], 0, 4));
    assert!(!Universe::is_valid_buffer(&vec![], 4, 0));
}

#[test]
fn buffer_length_is_compared_without_wrapping() {
    // 65536 * 65536 is 0 in 32-bit arithmetic.
    assert!(!Universe::is_valid_buffer(&vec![], 65536, 65536));
}

#[test]
fn set_height_resets_to_dead() {
    let mut universe = Universe::new(4, 4);
    universe.set_height(2);
    assert_eq!(universe.width(), 4);
    assert_eq!(universe.height(), 2);
    assert_eq!(*universe.get_cells(), [[D, D, D, D], [D, D, D, D]]);
}

#[test]
fn set_width_resets_to_dead() {
    let mut universe = Universe::new(4, 2);
    universe.set_width(3);
    assert_eq!(universe.width(), 3);
    assert_eq!(universe.height(), 2);
    assert_eq!(*universe.get_cells(), [[D, D, D], [D, D, D]]);
}

#[test]
fn resize_to_the_same_size_still_resets() {
    let mut universe = Universe::new(3, 3);
    universe.set_width(3);
    assert_eq!(live_cells(&universe), vec![]);
    assert_eq!(universe.get_cells().len(), 3);
}

#[test]
fn resize_to_zero_and_back() {
    let mut universe = Universe::new(3, 3);
    universe.set_height(0);
    assert!(universe.get_cells().is_empty());
    assert_eq!(universe.width(), 3);
    universe.set_height(2);
    assert_eq!(*universe.get_cells(), [[D, D, D], [D, D, D]]);
    universe.set_width(0);
    assert_eq!(universe.get_cells().len(), 2);
    assert!(universe.get_cells().iter().all(|row| row.is_empty()));
}

#[test]
fn set_cells_marks_exactly_those_cells() {
    let mut universe = empty(4, 3);
    universe.set_cells(&[(0, 3), (2, 0), (1, 1)]);
    assert_eq!(
        *universe.get_cells(),
        [[D, D, D, A], [D, A, D, D], [A, D, D, D]]
    );
}

#[test]
fn set_cells_leaves_the_others_untouched() {
    let mut universe = Universe::new(4, 2);
    universe.set_cells(&[(0, 1), (0, 0), (0, 1)]);
    assert_eq!(*universe.get_cells(), [[A, A, A, D], [A, D, A, A]]);
    universe.set_cells(&[]);
    assert_eq!(*universe.get_cells(), [[A, A, A, D], [A, D, A, A]]);
}

#[test]
fn cells_returns_one_row() {
    let universe = Universe::new(4, 4);
    assert_eq!(universe.cells(0), [A, D, A, D]);
    assert_eq!(universe.cells(1), [A, D, A, A]);
    assert_eq!(universe.cells(3), universe.get_cells()[3].as_slice());
}

#[test]
fn render_draws_one_line_for_each_row() {
    let universe = Universe::new(4, 4);
    assert_eq!(universe.render(), "◼◻◼◻\n◼◻◼◼\n◼◻◼◻\n◼◻◼◻\n");
}

#[test]
fn render_of_degenerate_grids() {
    assert_eq!(Universe::new(0, 0).render(), "");
    assert_eq!(Universe::new(0, 3).render(), "\n\n\n");
    assert_eq!(Universe::new(3, 0).render(), "");
}

#[test]
fn render_does_not_change_the_grid() {
    let universe = with_cells(3, 2, &[(1, 2)]);
    let before = universe.get_cells().clone();
    assert_eq!(universe.render(), "◻◻◻\n◻◻◼\n");
    assert_eq!(*universe.get_cells(), before);
    let text = universe.render();
    assert_eq!(text.lines().count(), 2);
    assert!(text.lines().all(|line| line.chars().count() == 3));
}

#[test]
fn clone_holds_the_same_grid() {
    let universe = with_cells(3, 2, &[(1, 2), (0, 0)]);
    let mut copy = universe.clone();
    assert_eq!(copy, universe);
    assert_eq!(copy.width(), 3);
    assert_eq!(copy.height(), 2);
    copy.next_tick();
    assert_eq!(*universe.get_cells(), [[A, D, D], [D, D, A]]);
}
