use game_of_life::rules::next_cell_state;
use game_of_life::{Cell, GridError, Universe};

fn empty_grid(width: u32, height: u32) -> Universe {
    let mut universe = Universe::new();
    universe.set_width(width).unwrap();
    universe.set_height(height).unwrap();
    universe
}

fn grid_with(width: u32, height: u32, alive: &[(u32, u32)]) -> Universe {
    let mut universe = empty_grid(width, height);
    universe.set_cells(alive).unwrap();
    universe
}

fn live_cells(universe: &Universe) -> Vec<(u32, u32)> {
    let mut cells = Vec::new();
    for row in 0..universe.height() {
        for column in 0..universe.width() {
            if universe.cell(row, column).unwrap() == Cell::Alive {
                cells.push((row, column));
            }
        }
    }
    cells
}

fn snapshot(universe: &Universe) -> Vec<bool> {
    let mut cells = Vec::new();
    for row in 0..universe.height() {
        for column in 0..universe.width() {
            cells.push(universe.cell(row, column).unwrap() == Cell::Alive);
        }
    }
    cells
}

#[test]
fn new_grid_is_64_by_64_with_seed_pattern() {
    let universe = Universe::new();
    assert_eq!(universe.width(), 64);
    assert_eq!(universe.height(), 64);
    assert_eq!(universe.changed_cells_length(), 0);
    let cells = snapshot(&universe);
    assert_eq!(cells.len(), 4096);
    for (i, alive) in cells.iter().enumerate() {
        assert_eq!(*alive, i % 2 == 0 || i % 7 == 0, "cell {}", i);
    }
    assert_eq!(universe.cell(0, 0), Ok(Cell::Alive));
    assert_eq!(universe.cell(0, 1), Ok(Cell::Dead));
    assert_eq!(universe.cell(0, 7), Ok(Cell::Alive));
    assert_eq!(universe.cell(0, 9), Ok(Cell::Dead));
    assert_eq!(universe.cell(1, 0), Ok(Cell::Alive));
    assert_eq!(universe.cell(63, 63), Ok(Cell::Alive));
}

#[test]
fn get_cells_exposes_the_current_bits() {
    let universe = grid_with(5, 4, &[(0, 0), (1, 2), (3, 4)]);
    let bits = universe.get_cells();
    assert_eq!(bits.len(), 20);
    assert_eq!(bits.count_ones(..), 3);
    assert!(bits.contains(0));
    assert!(bits.contains(7));
    assert!(bits.contains(19));
    assert!(!bits.contains(1));
}

#[test]
fn rule_table_is_exact() {
    for neighbors in 0u8..=8 {
        assert_eq!(next_cell_state(true, neighbors), neighbors == 2 || neighbors == 3);
        assert_eq!(next_cell_state(false, neighbors), neighbors == 3);
    }
}

#[test]
fn lone_corner_cell_is_seen_across_the_edges() {
    let universe = grid_with(5, 4, &[(0, 0)]);
    assert_eq!(universe.live_neighbor_count(3, 4), 1);
    assert_eq!(universe.live_neighbor_count(0, 4), 1);
    assert_eq!(universe.live_neighbor_count(3, 0), 1);
    assert_eq!(universe.live_neighbor_count(1, 1), 1);
    assert_eq!(universe.live_neighbor_count(0, 0), 0);
    assert_eq!(universe.live_neighbor_count(2, 2), 0);
}

#[test]
fn far_corner_cell_is_the_north_west_neighbor_of_the_origin() {
    let universe = grid_with(6, 7, &[(6, 5)]);
    assert_eq!(universe.live_neighbor_count(0, 0), 1);
    assert_eq!(universe.live_neighbor_count(0, 1), 0);
}

#[test]
fn neighbor_count_reaches_eight() {
    let universe = grid_with(
        4,
        4,
        &[(0, 0), (0, 1), (0, 2), (1, 0), (1, 2), (2, 0), (2, 1), (2, 2)],
    );
    assert_eq!(universe.live_neighbor_count(1, 1), 8);
    // Around (3, 3) lie (2, 2), (2, 0), (0, 2) and (0, 0), across the edges.
    assert_eq!(universe.live_neighbor_count(3, 3), 4);
}

#[test]
fn single_cell_grid_is_its_own_neighbor_eight_times() {
    let mut universe = grid_with(1, 1, &[(0, 0)]);
    assert_eq!(universe.live_neighbor_count(0, 0), 8);
    universe.tick();
    assert_eq!(universe.cell(0, 0), Ok(Cell::Dead));
    assert_eq!(universe.changed_cells(), &vec![0]);
}

#[test]
fn live_cell_without_neighbors_dies() {
    let mut universe = grid_with(5, 5, &[(2, 2)]);
    assert_eq!(universe.live_neighbor_count(2, 2), 0);
    universe.tick();
    assert_eq!(universe.cell(2, 2), Ok(Cell::Dead));
    assert_eq!(live_cells(&universe), Vec::<(u32, u32)>::new());
}

#[test]
fn live_cell_with_one_neighbor_dies() {
    let mut universe = grid_with(5, 5, &[(2, 2), (2, 3)]);
    assert_eq!(universe.live_neighbor_count(2, 2), 1);
    universe.tick();
    assert_eq!(universe.cell(2, 2), Ok(Cell::Dead));
    assert_eq!(universe.cell(2, 3), Ok(Cell::Dead));
}

#[test]
fn live_cell_with_two_neighbors_survives() {
    let mut universe = grid_with(5, 5, &[(2, 1), (2, 2), (2, 3)]);
    assert_eq!(universe.live_neighbor_count(2, 2), 2);
    universe.tick();
    assert_eq!(universe.cell(2, 2), Ok(Cell::Alive));
    assert_eq!(live_cells(&universe), vec![(1, 2), (2, 2), (3, 2)]);
}

#[test]
fn live_cell_with_three_neighbors_survives() {
    let mut universe = grid_with(4, 4, &[(1, 1), (1, 2), (2, 1), (2, 2)]);
    assert_eq!(universe.live_neighbor_count(1, 1), 3);
    universe.tick();
    assert_eq!(live_cells(&universe), vec![(1, 1), (1, 2), (2, 1), (2, 2)]);
    assert_eq!(universe.changed_cells_length(), 0);
}

#[test]
fn live_cell_with_four_neighbors_dies() {
    let mut universe = grid_with(5, 5, &[(1, 2), (2, 1), (2, 2), (2, 3), (3, 2)]);
    assert_eq!(universe.live_neighbor_count(2, 2), 4);
    universe.tick();
    assert_eq!(universe.cell(2, 2), Ok(Cell::Dead));
}

#[test]
fn dead_cell_with_three_neighbors_is_born() {
    let mut universe = grid_with(5, 5, &[(2, 1), (2, 2), (2, 3)]);
    assert_eq!(universe.cell(1, 2), Ok(Cell::Dead));
    assert_eq!(universe.live_neighbor_count(1, 2), 3);
    universe.tick();
    assert_eq!(universe.cell(1, 2), Ok(Cell::Alive));
}

#[test]
fn dead_cell_with_two_neighbors_stays_dead() {
    let mut universe = grid_with(5, 5, &[(2, 1), (2, 3)]);
    assert_eq!(universe.live_neighbor_count(2, 2), 2);
    universe.tick();
    assert_eq!(universe.cell(2, 2), Ok(Cell::Dead));
}

#[test]
fn tick_reads_only_the_previous_generation() {
    // A blinker comes back after two ticks; this fails if a cell sees the
    // new state of a cell scanned before it.
    let mut universe = grid_with(5, 5, &[(2, 1), (2, 2), (2, 3)]);
    universe.tick();
    assert_eq!(live_cells(&universe), vec![(1, 2), (2, 2), (3, 2)]);
    universe.tick();
    assert_eq!(live_cells(&universe), vec![(2, 1), (2, 2), (2, 3)]);
}

#[test]
fn tick_records_exactly_the_flipped_indices_in_scan_order() {
    let mut universe = grid_with(5, 5, &[(2, 1), (2, 2), (2, 3)]);
    universe.tick();
    assert_eq!(universe.changed_cells(), &vec![7, 11, 13, 17]);
    assert_eq!(universe.changed_cells_length(), 4);
}

#[test]
fn changed_list_matches_the_difference_of_generations() {
    let mut universe = Universe::new();
    for _ in 0..5 {
        let before = snapshot(&universe);
        universe.tick();
        let after = snapshot(&universe);
        let mut expected = Vec::new();
        for i in 0..before.len() {
            if before[i] != after[i] {
                expected.push(i as u32);
            }
        }
        assert_eq!(universe.changed_cells(), &expected);
        assert_eq!(universe.changed_cells_length(), expected.len());
    }
}

#[test]
fn equal_starts_give_equal_generations() {
    let mut first = Universe::new();
    let mut second = Universe::new();
    // Leave different scratch contents and records behind in `second`.
    second.tick();
    second.clear();
    let seed: Vec<bool> = (0..4096).map(|i| i % 2 == 0 || i % 7 == 0).collect();
    second.randomize(&seed).unwrap();
    assert_eq!(snapshot(&first), snapshot(&second));
    for _ in 0..10 {
        first.tick();
        second.tick();
        assert_eq!(snapshot(&first), snapshot(&second));
        assert_eq!(first.changed_cells(), second.changed_cells());
    }
}

#[test]
fn tick_keeps_the_dimensions() {
    let mut universe = grid_with(7, 3, &[(1, 1)]);
    universe.tick();
    assert_eq!(universe.width(), 7);
    assert_eq!(universe.height(), 3);
    assert_eq!(universe.get_cells().len(), 21);
}

#[test]
fn toggle_flips_one_cell_both_ways() {
    let mut universe = empty_grid(4, 3);
    assert_eq!(universe.toggle_cell(2, 3), Ok(()));
    assert_eq!(live_cells(&universe), vec![(2, 3)]);
    assert_eq!(universe.toggle_cell(0, 1), Ok(()));
    assert_eq!(live_cells(&universe), vec![(0, 1), (2, 3)]);
    assert_eq!(universe.toggle_cell(2, 3), Ok(()));
    assert_eq!(live_cells(&universe), vec![(0, 1)]);
}

#[test]
fn toggle_outside_the_grid_is_rejected() {
    let mut universe = grid_with(4, 3, &[(1, 1)]);
    assert_eq!(universe.toggle_cell(3, 0), Err(GridError::OutOfBounds));
    assert_eq!(universe.toggle_cell(0, 4), Err(GridError::OutOfBounds));
    assert_eq!(universe.toggle_cell(u32::MAX, u32::MAX), Err(GridError::OutOfBounds));
    assert_eq!(live_cells(&universe), vec![(1, 1)]);
}

#[test]
fn cell_outside_the_grid_is_rejected() {
    let universe = empty_grid(4, 3);
    assert_eq!(universe.cell(3, 0), Err(GridError::OutOfBounds));
    assert_eq!(universe.cell(0, 4), Err(GridError::OutOfBounds));
    assert_eq!(universe.cell(2, 3), Ok(Cell::Dead));
}

#[test]
fn set_cells_marks_alive_and_never_kills() {
    let mut universe = grid_with(4, 4, &[(0, 0), (1, 1)]);
    assert_eq!(universe.set_cells(&[(1, 1), (3, 3), (3, 3), (2, 0)]), Ok(()));
    assert_eq!(live_cells(&universe), vec![(0, 0), (1, 1), (2, 0), (3, 3)]);
    assert_eq!(universe.set_cells(&[]), Ok(()));
    assert_eq!(live_cells(&universe), vec![(0, 0), (1, 1), (2, 0), (3, 3)]);
}

#[test]
fn set_cells_with_one_bad_position_changes_nothing() {
    let mut universe = grid_with(4, 4, &[(0, 0)]);
    assert_eq!(
        universe.set_cells(&[(1, 1), (2, 2), (4, 0)]),
        Err(GridError::OutOfBounds)
    );
    assert_eq!(live_cells(&universe), vec![(0, 0)]);
    assert_eq!(universe.set_cells(&[(0, 4)]), Err(GridError::OutOfBounds));
    assert_eq!(live_cells(&universe), vec![(0, 0)]);
}

#[test]
fn randomize_takes_each_cell_from_the_draws() {
    let mut universe = grid_with(3, 2, &[(0, 0), (1, 2)]);
    let draws = [false, true, true, false, false, false];
    assert_eq!(universe.randomize(&draws), Ok(()));
    assert_eq!(snapshot(&universe), draws.to_vec());
    assert_eq!(live_cells(&universe), vec![(0, 1), (0, 2)]);
}

#[test]
fn randomize_with_wrong_length_is_rejected() {
    let mut universe = grid_with(3, 2, &[(0, 0)]);
    assert_eq!(
        universe.randomize(&[true, true, true, true, true]),
        Err(GridError::LengthMismatch)
    );
    assert_eq!(universe.randomize(&[true; 7]), Err(GridError::LengthMismatch));
    assert_eq!(universe.randomize(&[]), Err(GridError::LengthMismatch));
    assert_eq!(live_cells(&universe), vec![(0, 0)]);
}

#[test]
fn clear_kills_everything_and_records_the_cells_that_lived() {
    let mut universe = grid_with(4, 4, &[(3, 3), (0, 1), (2, 2)]);
    universe.clear();
    assert_eq!(live_cells(&universe), Vec::<(u32, u32)>::new());
    assert_eq!(universe.changed_cells(), &vec![1, 10, 15]);
    assert_eq!(universe.width(), 4);
    assert_eq!(universe.height(), 4);
}

#[test]
fn second_clear_records_nothing() {
    let mut universe = Universe::new();
    universe.clear();
    assert!(universe.changed_cells_length() > 0);
    universe.clear();
    assert_eq!(universe.changed_cells_length(), 0);
    assert_eq!(universe.changed_cells(), &Vec::<u32>::new());
    assert_eq!(universe.get_cells().count_ones(..), 0);
}

#[test]
fn clear_replaces_the_record_of_the_last_tick() {
    let mut universe = grid_with(5, 5, &[(2, 1), (2, 2), (2, 3)]);
    universe.tick();
    assert_eq!(universe.changed_cells_length(), 4);
    universe.clear();
    assert_eq!(universe.changed_cells(), &vec![7, 12, 17]);
}

#[test]
fn set_width_discards_the_content() {
    let mut universe = Universe::new();
    universe.set_cells(&[(3, 3)]).unwrap();
    assert_eq!(universe.set_width(32), Ok(()));
    assert_eq!(universe.width(), 32);
    assert_eq!(universe.height(), 64);
    assert_eq!(universe.get_cells().len(), 32 * 64);
    assert_eq!(universe.get_cells().count_ones(..), 0);
    assert_eq!(live_cells(&universe), Vec::<(u32, u32)>::new());
}

#[test]
fn set_height_discards_the_content() {
    let mut universe = Universe::new();
    assert_eq!(universe.set_height(10), Ok(()));
    assert_eq!(universe.width(), 64);
    assert_eq!(universe.height(), 10);
    assert_eq!(universe.get_cells().len(), 640);
    assert_eq!(universe.get_cells().count_ones(..), 0);
}

#[test]
fn resize_to_the_same_size_still_discards() {
    let mut universe = Universe::new();
    assert_eq!(universe.set_width(64), Ok(()));
    assert_eq!(universe.get_cells().count_ones(..), 0);
}

#[test]
fn grid_can_grow_and_tick_afterwards() {
    let mut universe = empty_grid(3, 3);
    universe.set_width(100).unwrap();
    universe.set_height(90).unwrap();
    universe.set_cells(&[(89, 98), (89, 99), (89, 0)]).unwrap();
    universe.tick();
    assert_eq!(live_cells(&universe), vec![(0, 99), (88, 99), (89, 99)]);
}

#[test]
fn zero_dimension_is_rejected() {
    let mut universe = grid_with(4, 4, &[(1, 1)]);
    assert_eq!(universe.set_width(0), Err(GridError::InvalidDimension));
    assert_eq!(universe.set_height(0), Err(GridError::InvalidDimension));
    assert_eq!(universe.width(), 4);
    assert_eq!(universe.height(), 4);
    assert_eq!(live_cells(&universe), vec![(1, 1)]);
}

#[test]
fn dimension_beyond_the_index_range_is_rejected() {
    let mut universe = Universe::new();
    universe.clear();
    universe.set_cells(&[(2, 2)]).unwrap();
    assert_eq!(universe.set_width(u32::MAX), Err(GridError::InvalidDimension));
    assert_eq!(universe.set_width(1 << 26), Err(GridError::InvalidDimension));
    assert_eq!(universe.set_height(1 << 26), Err(GridError::InvalidDimension));
    assert_eq!(universe.width(), 64);
    assert_eq!(universe.height(), 64);
    assert_eq!(live_cells(&universe), vec![(2, 2)]);
}

#[test]
fn render_draws_one_glyph_per_cell_and_one_line_per_row() {
    let universe = grid_with(3, 2, &[(0, 0), (1, 1), (1, 2)]);
    assert_eq!(universe.render(), "\u{25FC}\u{25FB}\u{25FB}\n\u{25FB}\u{25FC}\u{25FC}\n");
}

#[test]
fn render_of_the_seed_grid_has_64_lines_of_64_glyphs() {
    let text = Universe::new().render();
    let lines: Vec<&str> = text.split('\n').collect();
    assert_eq!(lines.len(), 65);
    assert_eq!(lines[64], "");
    for (row, line) in lines[..64].iter().enumerate() {
        let glyphs: Vec<char> = line.chars().collect();
        assert_eq!(glyphs.len(), 64);
        for (column, glyph) in glyphs.iter().enumerate() {
            let i = row * 64 + column;
            let alive = i % 2 == 0 || i % 7 == 0;
            assert_eq!(*glyph, if alive { '\u{25FC}' } else { '\u{25FB}' });
        }
    }
}
