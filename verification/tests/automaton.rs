use life3d::game::{Game, GameError, Probability, RuleSet, MIN_CELL_COUNT};
use life3d::lattice::{dead_grid, set_cell};
use life3d::neighbors::count_live_neighbors;

const RULES: [RuleSet; 5] = [
    RuleSet::Balanced,
    RuleSet::Dense,
    RuleSet::Sparse,
    RuleSet::Chaotic,
    RuleSet::NoDeath,
];

fn never() -> Probability {
    Probability::new(0, 1)
}

fn always() -> Probability {
    Probability::new(1, 1)
}

fn half() -> Probability {
    Probability::new(1, 2)
}

fn game_of(grid: Vec<Vec<Vec<bool>>>, rule: RuleSet) -> Game {
    let cell_count = grid.len();
    Game { grid, generation: 0, first_disp: true, cell_count, prob: never(), rule }
}

fn made(size: usize, prob: Probability, rule: RuleSet) -> Game {
    match Game::new(size, prob, rule) {
        Ok(game) => game,
        Err(_) => panic!("the probability is valid"),
    }
}

fn live_cells(grid: &Vec<Vec<Vec<bool>>>) -> usize {
    grid.iter().flatten().flatten().filter(|cell| **cell).count()
}

fn assert_cube(grid: &Vec<Vec<Vec<bool>>>, n: usize) {
    assert_eq!(grid.len(), n);
    for plane in grid {
        assert_eq!(plane.len(), n);
        for row in plane {
            assert_eq!(row.len(), n);
        }
    }
}

// The next lattice, computed cell by cell from the rule tables and a plain
// count over signed offsets.
fn expected_next(grid: &Vec<Vec<Vec<bool>>>, rule: RuleSet) -> Vec<Vec<Vec<bool>>> {
    let n = grid.len() as i64;
    let mut next = grid.clone();
    for x in 0..n {
        for y in 0..n {
            for z in 0..n {
                let mut count = 0;
                for dx in -1..=1i64 {
                    for dy in -1..=1i64 {
                        for dz in -1..=1i64 {
                            let (a, b, c) = (x + dx, y + dy, z + dz);
                            let inside = 0 <= a && a < n && 0 <= b && b < n && 0 <= c && c < n;
                            if (dx, dy, dz) != (0, 0, 0)
                                && inside
                                && grid[a as usize][b as usize][c as usize]
                            {
                                count += 1;
                            }
                        }
                    }
                }
                let alive = grid[x as usize][y as usize][z as usize];
                let (low, high, births): (i32, i32, &[i32]) = match rule {
                    RuleSet::Balanced => (5, 7, &[5, 6]),
                    RuleSet::Sparse => (3, 5, &[5]),
                    RuleSet::Dense => (4, 9, &[5, 6]),
                    RuleSet::Chaotic => (5, 8, &[5, 6]),
                    RuleSet::NoDeath => (0, 26, &[5]),
                };
                next[x as usize][y as usize][z as usize] = if alive {
                    low <= count && count <= high
                } else {
                    births.contains(&count)
                };
            }
        }
    }
    next
}

#[test]
fn new_raises_a_small_size_to_the_floor() {
    let game = made(3, half(), RuleSet::Sparse);
    assert_eq!(game.cell_count, 16);
    assert_eq!(MIN_CELL_COUNT, 16);
    assert_cube(&game.grid, 16);
    assert_eq!(made(0, half(), RuleSet::Sparse).cell_count, 16);
    assert_eq!(made(15, half(), RuleSet::Sparse).cell_count, 16);
    assert_eq!(made(16, half(), RuleSet::Sparse).cell_count, 16);
}

#[test]
fn new_keeps_a_size_above_the_floor() {
    let game = made(17, half(), RuleSet::Dense);
    assert_eq!(game.cell_count, 17);
    assert_cube(&game.grid, 17);
}

#[test]
fn new_starts_at_generation_zero_with_its_settings() {
    let game = made(16, Probability::new(1, 20), RuleSet::Chaotic);
    assert_eq!(game.generation, 0);
    assert!(game.first_disp);
    assert_eq!(game.prob, Probability::new(1, 20));
    assert_eq!(game.rule, RuleSet::Chaotic);
}

#[test]
fn new_rejects_a_probability_above_one() {
    assert!(matches!(
        Game::new(16, Probability::new(2, 1), RuleSet::Balanced),
        Err(GameError::InvalidProbability)
    ));
}

#[test]
fn new_rejects_a_zero_denominator() {
    assert!(matches!(
        Game::new(16, Probability::new(0, 0), RuleSet::Balanced),
        Err(GameError::InvalidProbability)
    ));
    assert!(matches!(
        Game::new(16, Probability::new(1, 0), RuleSet::Balanced),
        Err(GameError::InvalidProbability)
    ));
}

#[test]
fn probability_is_valid_from_zero_to_one() {
    assert!(Probability::new(0, 1).is_valid());
    assert!(Probability::new(1, 1).is_valid());
    assert!(Probability::new(1, 20).is_valid());
    assert!(Probability::new(u32::MAX, u32::MAX).is_valid());
    assert!(!Probability::new(2, 1).is_valid());
    assert!(!Probability::new(0, 0).is_valid());
    let p = Probability::new(3, 7);
    assert_eq!(p.numerator, 3);
    assert_eq!(p.denominator, 7);
}

#[test]
fn probability_zero_seeds_no_live_cell() {
    let grid = Game::randomize(never(), 16);
    assert_cube(&grid, 16);
    assert_eq!(live_cells(&grid), 0);
    assert_eq!(live_cells(&Game::randomize(Probability::new(0, 5), 16)), 0);
}

#[test]
fn probability_one_seeds_every_cell_alive() {
    let grid = Game::randomize(always(), 16);
    assert_cube(&grid, 16);
    assert_eq!(live_cells(&grid), 4096);
    assert_eq!(live_cells(&Game::randomize(Probability::new(5, 5), 16)), 4096);
}

#[test]
fn randomize_builds_a_cube_of_the_side_asked_for() {
    assert_cube(&Game::randomize(half(), 5), 5);
    assert_cube(&Game::randomize(half(), 0), 0);
    assert_cube(&Game::randomize(half(), 20), 20);
}

#[test]
fn probability_one_half_seeds_about_half_the_cells() {
    let live = live_cells(&Game::randomize(half(), 16));
    assert!(1500 < live && live < 2600, "{} of 4096 cells are alive", live);
}

#[test]
fn dead_lattice_stays_dead_for_five_generations() {
    let mut game = made(16, never(), RuleSet::Balanced);
    for _ in 0..5 {
        game.advance_state();
    }
    assert_cube(&game.grid, 16);
    assert_eq!(live_cells(&game.grid), 0);
    assert_eq!(game.generation, 5);
}

#[test]
fn dead_lattice_stays_dead_under_every_rule() {
    for rule in RULES {
        for n in [0usize, 1, 2, 5, 16] {
            let mut game = game_of(dead_grid(n), rule);
            game.advance_state();
            assert_eq!(game.grid, dead_grid(n));
        }
    }
}

#[test]
fn lone_cell_dies_under_sparse() {
    let mut grid = dead_grid(16);
    set_cell(&mut grid, 8, 8, 8, true);
    let mut game = game_of(grid, RuleSet::Sparse);
    assert_eq!(game.count_neighbors(8, 8, 8), 0);
    game.advance_state();
    assert_eq!(game.grid, dead_grid(16));
    assert_eq!(game.generation, 1);
}

#[test]
fn lone_cell_lives_on_without_death() {
    let mut grid = dead_grid(16);
    set_cell(&mut grid, 8, 8, 8, true);
    let mut game = game_of(grid.clone(), RuleSet::NoDeath);
    game.advance_state();
    assert_eq!(game.grid, grid);
}

#[test]
fn step_counts_generations_and_leaves_the_initial_state() {
    let mut game = made(16, Probability::new(1, 10), RuleSet::Dense);
    assert_eq!(game.generation, 0);
    assert!(game.first_disp);
    game.advance_state();
    assert_eq!(game.generation, 1);
    assert!(!game.first_disp);
    for k in 2..=7usize {
        game.advance_state();
        assert_eq!(game.generation, k);
        assert!(!game.first_disp);
    }
}

#[test]
fn step_keeps_side_probability_and_rule() {
    let mut game = made(18, Probability::new(1, 10), RuleSet::Chaotic);
    game.advance_state();
    assert_eq!(game.cell_count, 18);
    assert_cube(&game.grid, 18);
    assert_eq!(game.prob, Probability::new(1, 10));
    assert_eq!(game.rule, RuleSet::Chaotic);
}

#[test]
fn step_decides_every_cell_from_the_previous_generation() {
    for rule in RULES {
        let mut game = made(16, Probability::new(1, 5), rule);
        for _ in 0..3 {
            let expected = expected_next(&game.grid, rule);
            game.advance_state();
            assert_eq!(game.grid, expected);
        }
    }
}

#[test]
fn six_cells_around_a_dead_one_bring_it_alive() {
    let mut grid = dead_grid(16);
    for (x, y, z) in [(7, 8, 8), (9, 8, 8), (8, 7, 8), (8, 9, 8), (8, 8, 7), (8, 8, 9)] {
        set_cell(&mut grid, x, y, z, true);
    }
    assert_eq!(count_live_neighbors(&grid, 8, 8, 8), 6);
    assert_eq!(count_live_neighbors(&grid, 7, 8, 8), 4);
    let mut balanced = game_of(grid.clone(), RuleSet::Balanced);
    balanced.advance_state();
    assert!(balanced.grid[8][8][8]);
    assert!(!balanced.grid[7][8][8]);
    assert_eq!(balanced.grid, expected_next(&grid, RuleSet::Balanced));
    let mut sparse = game_of(grid.clone(), RuleSet::Sparse);
    sparse.advance_state();
    assert!(!sparse.grid[8][8][8]);
    assert!(sparse.grid[7][8][8]);
    let mut dense = game_of(grid, RuleSet::Dense);
    dense.advance_state();
    assert!(dense.grid[8][8][8]);
    assert!(dense.grid[7][8][8]);
}

#[test]
fn full_lattice_keeps_only_what_the_rule_lets_survive() {
    let mut game = game_of(Game::randomize(always(), 16), RuleSet::Balanced);
    game.advance_state();
    for x in 0..16usize {
        for y in 0..16usize {
            for z in 0..16usize {
                let on_border = |c: usize| c == 0 || c == 15;
                let corner = on_border(x) && on_border(y) && on_border(z);
                assert_eq!(game.grid[x][y][z], corner);
            }
        }
    }
}

#[test]
fn no_death_never_loses_a_live_cell() {
    let mut game = made(16, Probability::new(1, 4), RuleSet::NoDeath);
    let mut seen = game.grid.clone();
    for _ in 0..4 {
        game.advance_state();
        for x in 0..16 {
            for y in 0..16 {
                for z in 0..16 {
                    if seen[x][y][z] {
                        assert!(game.grid[x][y][z]);
                    }
                }
            }
        }
        seen = game.grid.clone();
    }
}

#[test]
fn equal_lattices_evolve_equally() {
    for rule in RULES {
        let start = Game::randomize(Probability::new(1, 5), 16);
        let mut first = game_of(start.clone(), rule);
        let mut second = game_of(start, rule);
        for _ in 0..4 {
            first.advance_state();
            second.advance_state();
            assert_eq!(first.grid, second.grid);
        }
    }
}

#[test]
fn reset_returns_to_generation_zero() {
    let mut game = made(16, Probability::new(1, 10), RuleSet::Sparse);
    game.advance_state();
    game.advance_state();
    assert!(game.reset().is_ok());
    assert_eq!(game.generation, 0);
    assert!(game.first_disp);
    assert_eq!(game.cell_count, 16);
    assert_cube(&game.grid, 16);
    assert_eq!(game.prob, Probability::new(1, 10));
    assert_eq!(game.rule, RuleSet::Sparse);
}

#[test]
fn reset_seeds_with_the_stored_probability() {
    let mut game = made(17, always(), RuleSet::Balanced);
    game.advance_state();
    assert!(live_cells(&game.grid) < 17 * 17 * 17);
    assert!(game.reset().is_ok());
    assert_cube(&game.grid, 17);
    assert_eq!(live_cells(&game.grid), 17 * 17 * 17);
    let mut empty = game_of(Game::randomize(always(), 16), RuleSet::Balanced);
    assert!(empty.reset().is_ok());
    assert_eq!(live_cells(&empty.grid), 0);
}

#[test]
fn reset_rejects_an_invalid_probability_and_changes_nothing() {
    let mut game = made(16, always(), RuleSet::NoDeath);
    game.advance_state();
    game.prob = Probability::new(3, 2);
    assert!(matches!(game.reset(), Err(GameError::InvalidProbability)));
    assert_eq!(game.generation, 1);
    assert!(!game.first_disp);
    assert_eq!(live_cells(&game.grid), 4096);
    assert_eq!(game.prob, Probability::new(3, 2));
}

#[test]
fn count_neighbors_leaves_the_automaton_as_it_was() {
    let mut game = made(16, always(), RuleSet::Dense);
    assert_eq!(game.count_neighbors(0, 0, 0), 7);
    assert_eq!(game.count_neighbors(0, 0, 5), 11);
    assert_eq!(game.count_neighbors(0, 5, 5), 17);
    assert_eq!(game.count_neighbors(5, 5, 5), 26);
    assert_eq!(game.generation, 0);
    assert!(game.first_disp);
    assert_eq!(live_cells(&game.grid), 4096);
}
