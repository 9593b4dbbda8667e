use life::grid::{Grid, CELL_LIFETIME, COLS, ROWS};
use life::text::status_text;
use rand::rngs::SmallRng;
use rand::SeedableRng;

#[test]
fn status_with_delay() {
    assert_eq!(
        status_text(500, 42),
        "Tick Delay(-/+): 500 ms  Number of Living Cells: 42"
    );
    assert_eq!(
        status_text(100, 5000),
        "Tick Delay(-/+): 100 ms  Number of Living Cells: 5000"
    );
}

#[test]
fn status_without_delay() {
    assert_eq!(
        status_text(0, 0),
        "Tick Delay(-/+): None    Number of Living Cells: 0"
    );
}

#[test]
fn status_large_numbers() {
    assert_eq!(
        status_text(u64::MAX, 1234567890),
        format!("Tick Delay(-/+): {} ms  Number of Living Cells: 1234567890", u64::MAX)
    );
    assert_eq!(status_text(7, 10), "Tick Delay(-/+): 7 ms  Number of Living Cells: 10");
}

#[test]
fn randomize_makes_a_mix_of_alive_and_dead() {
    let mut grid: Grid<u32> = Grid::new(ROWS, COLS);
    let mut rng = SmallRng::seed_from_u64(7);
    grid.randomize(&mut rng);
    let mut alive = 0;
    for r in 0..ROWS {
        for c in 0..COLS {
            let v = grid.cell_state(r, c);
            assert!(v == 0 || v == CELL_LIFETIME);
            if v == CELL_LIFETIME {
                alive += 1;
            }
        }
    }
    // about a third of the cells
    assert!(alive > 1300 && alive < 2000, "alive = {}", alive);
    assert_eq!(grid.num_alive(), 0);
}

#[test]
fn randomize_replaces_decay() {
    let mut grid: Grid<u32> = Grid::new(ROWS, COLS);
    for i in 0..ROWS * COLS {
        grid.set_entity(i, i as u32);
    }
    grid.place_initial_line();
    grid.update_cells_sync(&vec![true; ROWS * COLS]);
    let mut rng = SmallRng::seed_from_u64(1);
    grid.randomize(&mut rng);
    for r in 0..ROWS {
        for c in 0..COLS {
            let v = grid.cell_state(r, c);
            assert!(v == 0 || v == CELL_LIFETIME);
        }
    }
}
