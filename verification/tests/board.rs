use life::grid::{
    living_neighbors, next_generation, shade_of, starts_alive, update_row, CellShade,
    CurrentTile, Grid, CELL_LIFETIME, COLS, ROWS,
};

fn all_drawn() -> Vec<bool> {
    vec![true; ROWS * COLS]
}

fn with_entities(mut grid: Grid<u32>) -> Grid<u32> {
    for i in 0..ROWS * COLS {
        grid.set_entity(i, i as u32);
    }
    grid
}

fn board_with(alive: &[(usize, usize)]) -> Grid<u32> {
    let mut grid: Grid<u32> = with_entities(Grid::new(ROWS, COLS));
    let mut cells = vec![false; ROWS * COLS];
    for &(r, c) in alive {
        cells[r * COLS + c] = true;
    }
    grid.fill(&cells);
    grid
}

fn live_cells(grid: &Grid<u32>) -> Vec<(usize, usize)> {
    let mut out = Vec::new();
    for r in 0..ROWS {
        for c in 0..COLS {
            if grid.cell_state(r, c) == CELL_LIFETIME {
                out.push((r, c));
            }
        }
    }
    out
}

#[test]
fn new_grid_is_dead_and_has_no_entities() {
    let grid: Grid<u32> = Grid::new(ROWS, COLS);
    assert_eq!(grid.num_alive(), 0);
    for r in 0..ROWS {
        for c in 0..COLS {
            assert_eq!(grid.cell_state(r, c), 0);
            assert_eq!(grid.get(r, c), None);
        }
    }
}

#[test]
fn get_returns_entity_only_on_board() {
    let mut grid: Grid<u32> = Grid::new(ROWS, COLS);
    grid.set_entity(3 * COLS + 7, 42);
    assert_eq!(grid.get(3, 7), Some(42));
    assert_eq!(grid.get(7, 3), None);
    assert_eq!(grid.get(ROWS, 7), None);
    assert_eq!(grid.get(3, COLS), None);
}

#[test]
fn neighbors_in_the_middle() {
    let grid = board_with(&[(9, 9), (9, 10), (10, 11), (11, 9), (10, 10)]);
    let state = grid.snapshot();
    assert_eq!(living_neighbors(&state, 10, 10), 4);
    assert_eq!(living_neighbors(&state, 9, 9), 2);
    assert_eq!(living_neighbors(&state, 20, 20), 0);
}

#[test]
fn neighbors_wrap_around_the_corners() {
    let grid = board_with(&[(ROWS - 1, COLS - 1), (0, COLS - 1), (ROWS - 1, 0), (1, 1)]);
    let state = grid.snapshot();
    assert_eq!(living_neighbors(&state, 0, 0), 4);
    assert_eq!(living_neighbors(&state, ROWS - 1, COLS - 1), 2);
}

#[test]
fn full_neighborhood_counts_eight() {
    let mut cells = Vec::new();
    for r in 4..7 {
        for c in 4..7 {
            cells.push((r, c));
        }
    }
    let grid = board_with(&cells);
    assert_eq!(living_neighbors(&grid.snapshot(), 5, 5), 8);
}

#[test]
fn update_row_applies_the_rules() {
    // a blinker lying in row 10
    let grid = board_with(&[(10, 20), (10, 21), (10, 22)]);
    let state = grid.snapshot();
    let mut section = vec![true; COLS];
    update_row(&mut section, &state, 10);
    for c in 0..COLS {
        assert_eq!(section[c], c == 21, "column {}", c);
    }
    let mut above = vec![true; COLS];
    update_row(&mut above, &state, 9);
    for c in 0..COLS {
        assert_eq!(above[c], c == 21, "column {}", c);
    }
}

#[test]
fn next_generation_of_lonely_cell_is_empty() {
    let grid = board_with(&[(30, 30)]);
    let next = next_generation(&grid.snapshot());
    assert_eq!(next.len(), ROWS * COLS);
    assert!(next.iter().all(|b| !b));
}

#[test]
fn blinker_oscillates() {
    let mut grid = board_with(&[(10, 20), (10, 21), (10, 22)]);
    grid.update_cells_sync(&all_drawn());
    assert_eq!(live_cells(&grid), vec![(9, 21), (10, 21), (11, 21)]);
    assert_eq!(grid.num_alive(), 3);
    grid.update_cells_sync(&all_drawn());
    assert_eq!(live_cells(&grid), vec![(10, 20), (10, 21), (10, 22)]);
}

#[test]
fn block_is_still_life() {
    let block = vec![(5, 5), (5, 6), (6, 5), (6, 6)];
    let mut grid = board_with(&block);
    for _ in 0..4 {
        grid.update_cells_sync(&all_drawn());
        assert_eq!(live_cells(&grid), block);
        assert_eq!(grid.num_alive(), 4);
    }
}

#[test]
fn blinker_across_the_edge_wraps() {
    let mut grid = board_with(&[(0, 50), (ROWS - 1, 50), (1, 50)]);
    grid.update_cells_sync(&all_drawn());
    assert_eq!(live_cells(&grid), vec![(0, 49), (0, 50), (0, 51)]);
}

#[test]
fn glider_moves_one_step_diagonally_in_four_generations() {
    let glider = [(1, 2), (2, 3), (3, 1), (3, 2), (3, 3)];
    let mut grid = board_with(&glider);
    for _ in 0..4 {
        grid.update_cells_sync(&all_drawn());
    }
    let moved: Vec<(usize, usize)> = glider.iter().map(|&(r, c)| (r + 1, c + 1)).collect();
    assert_eq!(live_cells(&grid), moved);
}

#[test]
fn birth_with_exactly_three_neighbors() {
    let mut grid = board_with(&[(20, 20), (20, 22), (22, 21)]);
    grid.update_cells_sync(&all_drawn());
    assert_eq!(grid.cell_state(21, 21), CELL_LIFETIME);
    assert_eq!(grid.num_alive(), 1);
}

#[test]
fn overcrowded_cell_dies() {
    let mut grid = board_with(&[(20, 20), (19, 19), (19, 21), (21, 19), (21, 21)]);
    grid.update_cells_sync(&all_drawn());
    assert_ne!(grid.cell_state(20, 20), CELL_LIFETIME);
}

#[test]
fn dead_cell_decays_through_the_trail() {
    let mut grid = board_with(&[(40, 40)]);
    let mut seen = Vec::new();
    for _ in 0..8 {
        grid.update_cells_sync(&all_drawn());
        seen.push(grid.cell_state(40, 40));
    }
    assert_eq!(seen, vec![5, 4, 3, 2, 1, 0, 0, 0]);
    assert_eq!(grid.num_alive(), 0);
}

#[test]
fn shades_follow_the_state() {
    assert_eq!(shade_of(6), CellShade::Alive);
    assert_eq!(shade_of(5), CellShade::Decay5);
    assert_eq!(shade_of(4), CellShade::Decay4);
    assert_eq!(shade_of(3), CellShade::Decay3);
    assert_eq!(shade_of(2), CellShade::Decay2);
    assert_eq!(shade_of(1), CellShade::Decay1);
    assert_eq!(shade_of(0), CellShade::Dead);
    assert_eq!(shade_of(200), CellShade::Dead);
    let mut grid = board_with(&[(1, 1)]);
    assert_eq!(grid.cell_shade(1, 1), CellShade::Alive);
    grid.update_cells_sync(&all_drawn());
    assert_eq!(grid.cell_shade(1, 1), CellShade::Decay5);
}

#[test]
fn initial_line_is_half_the_middle_row() {
    let mut grid: Grid<u32> = Grid::new(ROWS, COLS);
    grid.place_initial_line();
    let expected: Vec<(usize, usize)> = (25..75).map(|c| (25, c)).collect();
    assert_eq!(live_cells(&grid), expected);
    assert!(starts_alive(25, 25));
    assert!(starts_alive(25, 74));
    assert!(!starts_alive(25, 75));
    assert!(!starts_alive(24, 50));
    assert_eq!(grid.num_alive(), 0);
}

#[test]
fn initial_line_first_generation() {
    let mut grid: Grid<u32> = with_entities(Grid::new(ROWS, COLS));
    grid.place_initial_line();
    grid.update_cells_sync(&all_drawn());
    // the ends die, the inner cells of the line survive, and rows 24 and 26 are born
    // over the inner columns
    assert_eq!(grid.num_alive(), 48 + 48 * 2);
    assert_eq!(grid.cell_state(25, 25), 5);
    assert_eq!(grid.cell_state(25, 26), CELL_LIFETIME);
    assert_eq!(grid.cell_state(24, 26), CELL_LIFETIME);
    assert_eq!(grid.cell_state(24, 25), 0);
}

#[test]
fn toggle_switches_and_restores() {
    let mut grid = board_with(&[(3, 3)]);
    assert!(!grid.toggle(3, 3));
    assert_eq!(grid.cell_state(3, 3), 0);
    assert!(grid.toggle(3, 3));
    assert_eq!(grid.cell_state(3, 3), CELL_LIFETIME);
    // a decaying cell comes back to life
    let mut grid = board_with(&[(3, 3)]);
    grid.update_cells_sync(&all_drawn());
    assert_eq!(grid.cell_state(3, 3), 5);
    assert!(grid.toggle(3, 3));
    assert_eq!(grid.cell_state(3, 3), CELL_LIFETIME);
}

#[test]
fn click_toggles_and_ignores_repeats() {
    let mut grid: Grid<u32> = with_entities(Grid::new(ROWS, COLS));
    let mut current = CurrentTile { row: 0, col: 0 };
    // the tile clicked last is ignored
    assert_eq!(grid.click(&mut current, 0, 0, true), None);
    assert_eq!(grid.cell_state(0, 0), 0);
    assert_eq!(grid.click(&mut current, 4, 9, true), Some(true));
    assert_eq!(current, CurrentTile { row: 4, col: 9 });
    assert_eq!(grid.cell_state(4, 9), CELL_LIFETIME);
    assert_eq!(grid.click(&mut current, 4, 9, true), None);
    assert_eq!(grid.cell_state(4, 9), CELL_LIFETIME);
    assert_eq!(grid.click(&mut current, 0, 0, true), Some(true));
    assert_eq!(grid.click(&mut current, 4, 9, true), Some(false));
    assert_eq!(grid.cell_state(4, 9), 0);
    // off the board
    assert_eq!(grid.click(&mut current, ROWS, 3, true), None);
    assert_eq!(current, CurrentTile { row: 4, col: 9 });
}

#[test]
fn click_needs_an_entity() {
    let mut grid: Grid<u32> = Grid::new(ROWS, COLS);
    let mut current = CurrentTile { row: 0, col: 0 };
    assert_eq!(grid.click(&mut current, 2, 2, true), None);
    assert_eq!(grid.cell_state(2, 2), 0);
    assert_eq!(current, CurrentTile { row: 0, col: 0 });
}

#[test]
fn clear_kills_everything_and_stays_empty() {
    let mut grid = board_with(&[(1, 1), (1, 2), (2, 1), (2, 2)]);
    grid.update_cells_sync(&all_drawn());
    assert_eq!(grid.num_alive(), 4);
    grid.clear();
    assert!(live_cells(&grid).is_empty());
    // the count is the one of the last generation
    assert_eq!(grid.num_alive(), 4);
    grid.update_cells_sync(&all_drawn());
    assert_eq!(grid.num_alive(), 0);
    for r in 0..ROWS {
        for c in 0..COLS {
            assert_eq!(grid.cell_state(r, c), 0);
        }
    }
}

#[test]
fn fill_sets_alive_and_dead() {
    let mut grid = board_with(&[(1, 1)]);
    grid.update_cells_sync(&all_drawn());
    assert_eq!(grid.cell_state(1, 1), 5);
    let mut cells = vec![false; ROWS * COLS];
    cells[0] = true;
    grid.fill(&cells);
    assert_eq!(grid.cell_state(0, 0), CELL_LIFETIME);
    assert_eq!(grid.cell_state(1, 1), 0);
}

#[test]
fn apply_generation_counts_and_decays() {
    let mut grid = board_with(&[(0, 0), (0, 1)]);
    let mut next = vec![false; ROWS * COLS];
    next[1] = true;
    next[2] = true;
    grid.apply_generation(&next, &all_drawn());
    assert_eq!(grid.cell_state(0, 0), 5);
    assert_eq!(grid.cell_state(0, 1), CELL_LIFETIME);
    assert_eq!(grid.cell_state(0, 2), CELL_LIFETIME);
    assert_eq!(grid.cell_state(0, 3), 0);
    assert_eq!(grid.num_alive(), 2);
}

#[test]
fn click_without_drawing_moves_the_current_tile_only() {
    let mut grid: Grid<u32> = with_entities(Grid::new(ROWS, COLS));
    let mut current = CurrentTile { row: 0, col: 0 };
    assert_eq!(grid.click(&mut current, 6, 8, false), None);
    assert_eq!(grid.cell_state(6, 8), 0);
    assert_eq!(current, CurrentTile { row: 6, col: 8 });
    // now a repeat, so even a drawn cell is left alone
    assert_eq!(grid.click(&mut current, 6, 8, true), None);
    assert_eq!(grid.cell_state(6, 8), 0);
}

#[test]
fn cells_not_drawn_keep_their_state() {
    let mut grid = board_with(&[(10, 20), (10, 21), (10, 22)]);
    let mut drawn = all_drawn();
    // the middle cell's drawing is missing, and so is the cell that would be born above it
    drawn[10 * COLS + 21] = false;
    drawn[9 * COLS + 21] = false;
    grid.update_cells_sync(&drawn);
    assert_eq!(grid.cell_state(10, 21), CELL_LIFETIME);
    assert_eq!(grid.cell_state(10, 20), 5);
    assert_eq!(grid.cell_state(9, 21), 0);
    assert_eq!(grid.cell_state(11, 21), CELL_LIFETIME);
    // only the shown cell that is alive is counted
    assert_eq!(grid.num_alive(), 1);
}

#[test]
fn cells_without_entity_keep_their_state() {
    let mut grid: Grid<u32> = Grid::new(ROWS, COLS);
    let mut cells = vec![false; ROWS * COLS];
    cells[0] = true;
    grid.fill(&cells);
    grid.update_cells_sync(&all_drawn());
    assert_eq!(grid.cell_state(0, 0), CELL_LIFETIME);
    assert_eq!(grid.num_alive(), 0);
}

#[test]
fn shifted_glider_steps_like_the_glider_shifted() {
    let glider = [(1, 2), (2, 3), (3, 1), (3, 2), (3, 3)];
    let (dr, dc) = (47, 98);
    let shifted: Vec<(usize, usize)> =
        glider.iter().map(|&(r, c)| ((r + dr) % ROWS, (c + dc) % COLS)).collect();
    let mut a = board_with(&glider);
    let mut b = board_with(&shifted);
    for _ in 0..3 {
        a.update_cells_sync(&all_drawn());
        b.update_cells_sync(&all_drawn());
        for r in 0..ROWS {
            for c in 0..COLS {
                assert_eq!(b.cell_state((r + dr) % ROWS, (c + dc) % COLS), a.cell_state(r, c));
            }
        }
        assert_eq!(a.num_alive(), b.num_alive());
    }
}
