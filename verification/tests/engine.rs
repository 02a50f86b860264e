use minesweeper::cell::Cell;
use minesweeper::grid::{ConfigError, Grid};

fn grid_with_mines(width: usize, height: usize, mines: &[(usize, usize)]) -> Grid {
    let mut g = Grid::new(width, height);
    for &(x, y) in mines {
        g.place_mine(x, y);
    }
    g.compute_counts();
    g
}

fn snapshot(g: &Grid) -> Vec<Cell> {
    let mut cells = Vec::new();
    for y in 0..g.height {
        for x in 0..g.width {
            cells.push(g.get_cell(x, y));
        }
    }
    cells
}

fn count_mines(g: &Grid) -> usize {
    let mut n = 0;
    for y in 0..g.height {
        for x in 0..g.width {
            if g.get_cell(x, y).is_mine {
                n += 1;
            }
        }
    }
    n
}

fn recount_neighbors(g: &Grid, x: usize, y: usize) -> u8 {
    let mut n = 0;
    for dx in -1i64..=1 {
        for dy in -1i64..=1 {
            if dx == 0 && dy == 0 {
                continue;
            }
            let nx = x as i64 + dx;
            let ny = y as i64 + dy;
            if nx >= 0 && ny >= 0 && (nx as usize) < g.width && (ny as usize) < g.height {
                if g.get_cell(nx as usize, ny as usize).is_mine {
                    n += 1;
                }
            }
        }
    }
    n
}

#[test]
fn generate_places_exact_mine_count() {
    let g = Grid::generate(30, 16, 99).unwrap();
    assert_eq!(g.width, 30);
    assert_eq!(g.height, 16);
    assert_eq!(count_mines(&g), 99);
    for y in 0..16 {
        for x in 0..30 {
            let c = g.get_cell(x, y);
            assert!(c.is_hidden);
            assert!(!c.is_flagged);
        }
    }
}

#[test]
fn generate_counts_match_neighbors() {
    let g = Grid::generate(30, 16, 99).unwrap();
    for y in 0..16 {
        for x in 0..30 {
            assert_eq!(g.get_cell(x, y).adjacent_count, recount_neighbors(&g, x, y));
        }
    }
}

#[test]
fn generate_nearly_full_grid() {
    let g = Grid::generate(5, 5, 24).unwrap();
    assert_eq!(count_mines(&g), 24);
}

#[test]
fn generate_zero_mines() {
    let g = Grid::generate(4, 4, 0).unwrap();
    assert_eq!(count_mines(&g), 0);
    for y in 0..4 {
        for x in 0..4 {
            assert_eq!(g.get_cell(x, y).adjacent_count, 0);
        }
    }
}

#[test]
fn generate_rejects_full_grid() {
    assert!(matches!(Grid::generate(30, 16, 480), Err(ConfigError::TooManyMines)));
    assert!(matches!(Grid::generate(2, 2, 4), Err(ConfigError::TooManyMines)));
    assert!(matches!(Grid::generate(10, 10, 1000), Err(ConfigError::TooManyMines)));
    assert!(matches!(Grid::generate(0, 5, 0), Err(ConfigError::TooManyMines)));
}

#[test]
fn generate_rejects_oversized_grid() {
    assert!(matches!(Grid::generate(usize::MAX, 2, 1), Err(ConfigError::GridTooLarge)));
}

#[test]
fn adjacency_counts_exact() {
    let g = grid_with_mines(3, 3, &[(0, 0), (2, 1)]);
    let expected = [
        // (x, y, count)
        (0usize, 0usize, 0u8), // mine cell: no mine among its neighbors
        (1, 0, 2),
        (2, 0, 1),
        (0, 1, 1),
        (1, 1, 2),
        (2, 1, 0), // mine cell: the other mine is not adjacent
        (0, 2, 0),
        (1, 2, 1),
        (2, 2, 1),
    ];
    for &(x, y, n) in expected.iter() {
        assert_eq!(g.get_cell(x, y).adjacent_count, n, "count at ({}, {})", x, y);
    }
}

#[test]
fn uncover_mine_ends_game_and_touches_nothing_else() {
    let mut g = grid_with_mines(3, 3, &[(1, 1)]);
    let before = snapshot(&g);
    let continues = g.uncover(1, 1);
    assert!(!continues);
    let after = snapshot(&g);
    for y in 0..3 {
        for x in 0..3 {
            let k = y * 3 + x;
            if x == 1 && y == 1 {
                assert!(!after[k].is_hidden);
                assert!(after[k].is_mine);
            } else {
                assert_eq!(after[k], before[k], "cell ({}, {}) changed", x, y);
            }
        }
    }
}

#[test]
fn uncover_flagged_cell_is_noop() {
    let mut g = grid_with_mines(3, 3, &[(0, 0)]);
    g.toggle_flag(2, 2);
    let before = snapshot(&g);
    let continues = g.uncover(2, 2);
    assert!(continues);
    assert_eq!(snapshot(&g), before);
    let c = g.get_cell(2, 2);
    assert!(c.is_hidden);
    assert!(c.is_flagged);
}

#[test]
fn toggle_flag_twice_clears_it() {
    let mut g = grid_with_mines(3, 3, &[(0, 0)]);
    g.toggle_flag(1, 2);
    assert!(g.get_cell(1, 2).is_flagged);
    g.toggle_flag(1, 2);
    let c = g.get_cell(1, 2);
    assert!(!c.is_flagged);
    assert!(c.is_hidden);
}

#[test]
fn toggle_flag_on_revealed_cell_is_noop() {
    let mut g = grid_with_mines(3, 3, &[(0, 0)]);
    assert!(g.uncover(2, 2));
    g.toggle_flag(2, 2);
    let c = g.get_cell(2, 2);
    assert!(!c.is_flagged);
    assert!(!c.is_hidden);
}

#[test]
fn uncover_nonzero_cell_reveals_only_it() {
    let mut g = grid_with_mines(3, 3, &[(0, 0)]);
    let before = snapshot(&g);
    assert!(g.uncover(1, 1));
    let after = snapshot(&g);
    for y in 0..3 {
        for x in 0..3 {
            let k = y * 3 + x;
            if x == 1 && y == 1 {
                assert!(!after[k].is_hidden);
                assert_eq!(after[k].adjacent_count, 1);
            } else {
                assert_eq!(after[k], before[k]);
            }
        }
    }
}

#[test]
fn flood_reveals_zero_region_but_no_mine() {
    let mut g = grid_with_mines(5, 5, &[(0, 0)]);
    assert!(g.uncover(4, 4));
    for y in 0..5 {
        for x in 0..5 {
            let c = g.get_cell(x, y);
            if x == 0 && y == 0 {
                assert!(c.is_hidden, "the mine must stay hidden");
            } else {
                assert!(!c.is_hidden, "cell ({}, {}) should be revealed", x, y);
            }
        }
    }
}

#[test]
fn flood_is_idempotent() {
    let mut g = grid_with_mines(5, 5, &[(0, 0)]);
    assert!(g.uncover(4, 4));
    let before = snapshot(&g);
    assert!(g.uncover(4, 4));
    assert_eq!(snapshot(&g), before);
    assert!(g.uncover(2, 3));
    assert_eq!(snapshot(&g), before);
}

#[test]
fn flood_skips_flagged_cells() {
    let mut g = grid_with_mines(5, 5, &[(0, 0)]);
    g.toggle_flag(2, 2);
    assert!(g.uncover(4, 4));
    let c = g.get_cell(2, 2);
    assert!(c.is_hidden);
    assert!(c.is_flagged);
}

#[test]
fn big_cascade_is_bounded_by_nonzero_cells() {
    // 30x16 field with 99 mines at fixed positions: the three top rows
    // full, and nine more at the left of the fourth row.
    let mut mines = Vec::new();
    for y in 0..3 {
        for x in 0..30 {
            mines.push((x, y));
        }
    }
    for x in 0..9 {
        mines.push((x, 3));
    }
    assert_eq!(mines.len(), 99);
    let mut g = grid_with_mines(30, 16, &mines);
    assert!(g.uncover(29, 15));
    // The cascade reveals every non-mine cell; every mine stays hidden.
    for y in 0..16 {
        for x in 0..30 {
            let c = g.get_cell(x, y);
            assert_eq!(c.is_hidden, c.is_mine, "cell ({}, {})", x, y);
        }
    }
    // The flood ran to completion: around every revealed zero-count cell,
    // every (necessarily non-mine) neighbor is revealed too.
    for y in 0..16i64 {
        for x in 0..30i64 {
            let c = g.get_cell(x as usize, y as usize);
            if !c.is_hidden && c.adjacent_count == 0 && !c.is_mine {
                for dx in -1i64..=1 {
                    for dy in -1i64..=1 {
                        let nx = x + dx;
                        let ny = y + dy;
                        if nx >= 0 && ny >= 0 && nx < 30 && ny < 16 {
                            assert!(!g.get_cell(nx as usize, ny as usize).is_hidden);
                        }
                    }
                }
            }
        }
    }
}

#[test]
fn fresh_grid_is_not_won() {
    let g = grid_with_mines(3, 3, &[(0, 0)]);
    assert!(!g.is_won());
}

#[test]
fn revealing_every_safe_cell_wins() {
    let mut g = grid_with_mines(5, 5, &[(0, 0)]);
    assert!(!g.is_won());
    assert!(g.uncover(4, 4));
    // The cascade reveals every non-mine cell of this field.
    assert!(g.is_won());
}

#[test]
fn flagging_does_not_affect_win_check() {
    let mut g = grid_with_mines(2, 1, &[(0, 0)]);
    g.toggle_flag(0, 0);
    assert!(!g.is_won());
    assert!(g.uncover(1, 0));
    assert!(g.is_won());
}
