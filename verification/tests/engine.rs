use game_of_life::{Cell, Universe};

fn set_cells_alive(universe: &mut Universe, positions: &[(usize, usize)]) {
    for pos in positions {
        universe.edit_cell(*pos);
    }
}

fn grid_of(height: usize, width: usize, alive: &[(usize, usize)]) -> Universe {
    let mut universe = Universe::new(height, width);
    set_cells_alive(&mut universe, alive);
    universe
}

fn alive_positions(universe: &Universe) -> Vec<(usize, usize)> {
    let mut found = Vec::new();
    for row in 0..universe.height() {
        for col in 0..universe.width() {
            if universe.get_cell((row, col)) == Cell::Alive {
                found.push((row, col));
            }
        }
    }
    found
}

#[test]
fn test_edit_cell() {
    let mut universe = Universe::new(10, 10);
    universe.edit_cell((1, 1));
    assert_eq!(universe.get_cell((1, 1)), Cell::Alive);
}

#[test]
fn test_underpopulation() {
    let mut universe = Universe::new(3, 3);
    set_cells_alive(&mut universe, &[(1, 1)]);
    universe = universe.iterate();
    assert_eq!(universe.get_cell((1, 1)), Cell::Dead);
}

#[test]
fn test_survival() {
    let mut universe = Universe::new(3, 3);
    set_cells_alive(&mut universe, &[(0, 1), (1, 1), (2, 1)]);
    println!("{}", universe.render());
    universe = universe.iterate();
    println!("{:?}", universe.count_alive_neighbors());
    println!("{}", universe.render());

    assert_eq!(universe.get_cell((1, 1)), Cell::Alive);
}

#[test]
fn test_overpopulation() {
    let mut universe = Universe::new(3, 3);
    set_cells_alive(&mut universe, &[(0, 0), (0, 1), (0, 2), (1, 1), (2, 1)]);
    universe = universe.iterate();
    assert_eq!(universe.get_cell((1, 1)), Cell::Dead);
}

#[test]
fn test_reproduction() {
    let mut universe = Universe::new(3, 3);
    set_cells_alive(&mut universe, &[(0, 1), (1, 0), (1, 2)]);
    universe = universe.iterate();
    assert_eq!(universe.get_cell((1, 1)), Cell::Alive);
}

#[test]
fn new_universe_is_all_dead() {
    let universe = Universe::new(4, 7);
    assert_eq!(universe.height(), 4);
    assert_eq!(universe.width(), 7);
    assert_eq!(universe.cells().len(), 28);
    assert!(universe.cells().iter().all(|cell| *cell == Cell::Dead));
    assert_eq!(alive_positions(&universe), vec![]);
}

#[test]
fn cell_count_is_height_times_width_in_every_state() {
    let mut universe = Universe::new(5, 3);
    assert_eq!(universe.cells().len(), 15);
    universe.edit_cell((4, 2));
    assert_eq!(universe.cells().len(), 15);
    universe.set_cell((0, 0), Cell::Alive);
    assert_eq!(universe.cells().len(), 15);
    let next = universe.iterate();
    assert_eq!(next.cells().len(), 15);
    assert_eq!(next.height(), 5);
    assert_eq!(next.width(), 3);
    assert_eq!(universe.count_alive_neighbors().len(), 15);
}

#[test]
fn reading_outside_the_grid_gives_dead() {
    let mut universe = Universe::new(2, 3);
    for row in 0..2 {
        for col in 0..3 {
            universe.set_cell((row, col), Cell::Alive);
        }
    }
    assert_eq!(universe.get_cell((1, 2)), Cell::Alive);
    assert_eq!(universe.get_cell((2, 0)), Cell::Dead);
    assert_eq!(universe.get_cell((0, 3)), Cell::Dead);
    assert_eq!(universe.get_cell((2, 3)), Cell::Dead);
    assert_eq!(universe.get_cell((usize::MAX, 0)), Cell::Dead);
    assert_eq!(universe.get_cell((0, usize::MAX)), Cell::Dead);
    assert_eq!(universe.get_cell((usize::MAX, usize::MAX)), Cell::Dead);
}

#[test]
fn cells_are_stored_row_by_row() {
    let mut universe = Universe::new(3, 4);
    universe.set_cell((1, 2), Cell::Alive);
    let cells = universe.cells();
    for (index, cell) in cells.iter().enumerate() {
        let expected = if index == 6 { Cell::Alive } else { Cell::Dead };
        assert_eq!(*cell, expected);
    }
}

#[test]
fn toggling_twice_restores_the_cell() {
    let mut universe = grid_of(4, 4, &[(0, 0), (2, 3)]);
    let before = universe.cells().clone();
    universe.edit_cell((2, 3));
    assert_eq!(universe.get_cell((2, 3)), Cell::Dead);
    universe.edit_cell((2, 3));
    assert_eq!(universe.get_cell((2, 3)), Cell::Alive);
    assert_eq!(universe.cells(), &before);
    universe.edit_cell((1, 1));
    assert_eq!(universe.get_cell((1, 1)), Cell::Alive);
    universe.edit_cell((1, 1));
    assert_eq!(universe.get_cell((1, 1)), Cell::Dead);
    assert_eq!(universe.cells(), &before);
}

#[test]
fn edit_changes_only_its_own_cell() {
    let mut universe = Universe::new(3, 3);
    universe.edit_cell((1, 2));
    assert_eq!(alive_positions(&universe), vec![(1, 2)]);
    universe.edit_cell((2, 0));
    assert_eq!(alive_positions(&universe), vec![(1, 2), (2, 0)]);
}

#[test]
fn set_cell_overwrites() {
    let mut universe = Universe::new(3, 3);
    universe.set_cell((2, 1), Cell::Alive);
    assert_eq!(universe.get_cell((2, 1)), Cell::Alive);
    universe.set_cell((2, 1), Cell::Alive);
    assert_eq!(universe.get_cell((2, 1)), Cell::Alive);
    universe.set_cell((2, 1), Cell::Dead);
    assert_eq!(universe.get_cell((2, 1)), Cell::Dead);
    assert_eq!(alive_positions(&universe), vec![]);
}

#[test]
fn coordinates_follow_the_row_major_layout() {
    let universe = Universe::new(3, 4);
    assert_eq!(universe.coordinates_from_linear(0), (0, 0));
    assert_eq!(universe.coordinates_from_linear(3), (0, 3));
    assert_eq!(universe.coordinates_from_linear(4), (1, 0));
    assert_eq!(universe.coordinates_from_linear(7), (1, 3));
    assert_eq!(universe.coordinates_from_linear(11), (2, 3));
    assert_eq!(universe.coordinates_from_linear(13), (3, 1));
    for index in 0..12 {
        let (row, col) = universe.coordinates_from_linear(index);
        assert!(row < 3 && col < 4);
        assert_eq!(row * 4 + col, index);
    }
}

#[test]
fn neighbor_counts_of_a_vertical_bar() {
    let universe = grid_of(3, 3, &[(0, 1), (1, 1), (2, 1)]);
    assert_eq!(universe.count_alive_neighbors(), vec![2, 1, 2, 3, 2, 3, 2, 1, 2]);
}

#[test]
fn a_cell_is_not_its_own_neighbor() {
    let universe = grid_of(3, 3, &[(1, 1)]);
    assert_eq!(universe.count_alive_neighbors(), vec![1, 1, 1, 1, 0, 1, 1, 1, 1]);
}

#[test]
fn a_full_grid_counts_only_cells_inside_it() {
    let mut universe = Universe::new(3, 3);
    for row in 0..3 {
        for col in 0..3 {
            universe.set_cell((row, col), Cell::Alive);
        }
    }
    assert_eq!(universe.count_alive_neighbors(), vec![3, 5, 3, 5, 8, 5, 3, 5, 3]);
}

#[test]
fn a_live_corner_counts_only_for_the_cells_that_touch_it() {
    let universe = grid_of(4, 4, &[(0, 0)]);
    assert_eq!(
        universe.count_alive_neighbors(),
        vec![0, 1, 0, 0, 1, 1, 0, 0, 0, 0, 0, 0, 0, 0, 0, 0]
    );
}

#[test]
fn the_cell_at_row_two_column_two_is_counted_like_any_other() {
    let universe = grid_of(5, 5, &[(1, 1), (1, 2), (2, 2), (3, 3), (2, 3)]);
    let counts = universe.count_alive_neighbors();
    assert_eq!(counts[2 * 5 + 2], 4);
}

#[test]
fn counts_do_not_wrap_between_the_corners() {
    let first = grid_of(3, 4, &[(0, 0)]);
    assert_eq!(first.count_alive_neighbors()[2 * 4 + 3], 0);
    let last = grid_of(3, 4, &[(2, 3)]);
    assert_eq!(last.count_alive_neighbors()[0], 0);
    let narrow = grid_of(2, 3, &[(0, 0)]);
    assert_eq!(narrow.count_alive_neighbors()[3 + 2], 0);
    let tall = grid_of(3, 2, &[(2, 1)]);
    assert_eq!(tall.count_alive_neighbors()[0], 0);
}

#[test]
fn counts_do_not_wrap_between_opposite_edges() {
    let right_edge = grid_of(3, 3, &[(0, 2)]);
    assert_eq!(right_edge.count_alive_neighbors(), vec![0, 1, 0, 0, 1, 1, 0, 0, 0]);
    let bottom_edge = grid_of(3, 3, &[(2, 1)]);
    assert_eq!(bottom_edge.count_alive_neighbors(), vec![0, 0, 0, 1, 1, 1, 1, 0, 1]);
    let left_edge = grid_of(3, 3, &[(1, 0)]);
    assert_eq!(left_edge.count_alive_neighbors(), vec![1, 1, 0, 0, 1, 0, 1, 1, 0]);
}

#[test]
fn in_a_two_by_two_grid_the_corners_touch() {
    let universe = grid_of(2, 2, &[(0, 0)]);
    assert_eq!(universe.count_alive_neighbors(), vec![0, 1, 1, 1]);
}

#[test]
fn blinker_oscillates() {
    let mut vertical = grid_of(5, 5, &[(1, 2), (2, 2), (3, 2)]);
    let mut horizontal = vertical.iterate();
    assert_eq!(alive_positions(&horizontal), vec![(2, 1), (2, 2), (2, 3)]);
    let back = horizontal.iterate();
    assert_eq!(alive_positions(&back), vec![(1, 2), (2, 2), (3, 2)]);
    assert_eq!(back.cells(), vertical.cells());
}

#[test]
fn block_is_still() {
    let mut block = grid_of(4, 4, &[(1, 1), (1, 2), (2, 1), (2, 2)]);
    let next = block.iterate();
    assert_eq!(next.cells(), block.cells());
}

#[test]
fn glider_moves_one_cell_diagonally_in_four_generations() {
    let mut universe = grid_of(8, 8, &[(0, 1), (1, 2), (2, 0), (2, 1), (2, 2)]);
    for _ in 0..4 {
        universe = universe.iterate();
    }
    assert_eq!(alive_positions(&universe), vec![(1, 2), (2, 3), (3, 1), (3, 2), (3, 3)]);
}

#[test]
fn a_live_cell_survives_with_three_neighbors() {
    let mut universe = grid_of(3, 3, &[(0, 0), (0, 2), (1, 1), (2, 1)]);
    assert_eq!(universe.count_alive_neighbors()[4], 3);
    let next = universe.iterate();
    assert_eq!(next.get_cell((1, 1)), Cell::Alive);
}

#[test]
fn a_dead_cell_with_two_neighbors_stays_dead() {
    let mut universe = grid_of(3, 3, &[(0, 1), (2, 1)]);
    let next = universe.iterate();
    assert_eq!(next.get_cell((1, 1)), Cell::Dead);
    assert_eq!(alive_positions(&next), vec![]);
}

#[test]
fn a_corner_cell_follows_the_same_rule() {
    let mut universe = grid_of(3, 3, &[(0, 1), (1, 0), (1, 1)]);
    let next = universe.iterate();
    assert_eq!(next.get_cell((0, 0)), Cell::Alive);
    assert_eq!(alive_positions(&next), vec![(0, 0), (0, 1), (1, 0), (1, 1)]);
}

#[test]
fn iterate_leaves_the_receiver_untouched() {
    let mut universe = grid_of(3, 3, &[(1, 1)]);
    let before = universe.cells().clone();
    let next = universe.iterate();
    assert_eq!(universe.cells(), &before);
    assert_eq!(universe.get_cell((1, 1)), Cell::Alive);
    assert_eq!(next.get_cell((1, 1)), Cell::Dead);
}

#[test]
fn iterate_decides_from_the_current_generation_only() {
    let mut universe = grid_of(1, 3, &[(0, 0), (0, 1), (0, 2)]);
    let next = universe.iterate();
    assert_eq!(alive_positions(&next), vec![(0, 1)]);
}

#[test]
fn empty_grids_are_inert() {
    for (height, width) in [(0, 0), (0, 5), (5, 0)] {
        let mut universe = Universe::new(height, width);
        assert_eq!(universe.height(), height);
        assert_eq!(universe.width(), width);
        assert_eq!(universe.cells().len(), 0);
        assert_eq!(universe.get_cell((0, 0)), Cell::Dead);
        assert_eq!(universe.count_alive_neighbors(), Vec::<usize>::new());
        assert_eq!(universe.render(), "");
        let next = universe.iterate();
        assert_eq!(next.height(), height);
        assert_eq!(next.width(), width);
        assert_eq!(next.cells().len(), 0);
    }
}

#[test]
fn a_single_cell_grid_dies_out() {
    let mut universe = grid_of(1, 1, &[(0, 0)]);
    assert_eq!(universe.count_alive_neighbors(), vec![0]);
    let next = universe.iterate();
    assert_eq!(next.get_cell((0, 0)), Cell::Dead);
}

#[test]
fn render_prints_one_line_per_row() {
    let universe = grid_of(2, 3, &[(0, 1), (1, 2)]);
    assert_eq!(
        universe.render(),
        "\u{25a1} \u{25a0} \u{25a1} \n\u{25a1} \u{25a1} \u{25a0} \n"
    );
    let blank = Universe::new(1, 2);
    assert_eq!(blank.render(), "\u{25a1} \u{25a1} \n");
}

#[test]
fn rule_table() {
    for n in 0..=8usize {
        let alive = if n == 2 || n == 3 { Cell::Alive } else { Cell::Dead };
        let dead = if n == 3 { Cell::Alive } else { Cell::Dead };
        assert_eq!(Cell::Alive.next_state(n), alive);
        assert_eq!(Cell::Dead.next_state(n), dead);
    }
    assert_eq!(Cell::Alive.next_state(9), Cell::Dead);
    assert_eq!(Cell::Dead.next_state(usize::MAX), Cell::Dead);
}

#[test]
fn cell_basics() {
    assert_eq!(Cell::default(), Cell::Dead);
    assert_eq!(Cell::Alive.toggled(), Cell::Dead);
    assert_eq!(Cell::Dead.toggled(), Cell::Alive);
    assert_eq!(Cell::Dead.toggled().toggled(), Cell::Dead);
}
