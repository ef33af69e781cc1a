use game_of_life::{Cell, Universe};

/// An all-dead grid, built from an all-false random seed.
fn dead_grid(width: usize, height: usize) -> Universe {
    Universe::random_new(width, height, &vec![false; width * height])
}

fn alive_count(u: &Universe) -> usize {
    u.cells().iter().filter(|c| **c == Cell::Alive).count()
}

#[test]
fn deterministic_seed_has_width_times_height_cells() {
    let u = Universe::new(4, 3);
    assert_eq!(u.width(), 4);
    assert_eq!(u.height(), 3);
    assert_eq!(u.cells().len(), 12);
    let u = Universe::new(1, 1);
    assert_eq!(u.cells().len(), 1);
    let u = Universe::new(7, 5);
    assert_eq!(u.cells().len(), 35);
}

#[test]
fn deterministic_seed_follows_parity_rule() {
    let u = Universe::new(10, 10);
    for (i, cell) in u.cells().iter().enumerate() {
        let expected = if i % 2 == 0 || i % 7 == 0 {
            Cell::Alive
        } else {
            Cell::Dead
        };
        assert_eq!(*cell, expected, "cell {}", i);
    }
}

#[test]
fn default_universe_is_64_by_64() {
    let u = Universe::default();
    assert_eq!(u.width(), 64);
    assert_eq!(u.height(), 64);
    assert_eq!(u.cells().len(), 64 * 64);
    assert_eq!(u.cells()[0], Cell::Alive);
    assert_eq!(u.cells()[1], Cell::Dead);
    assert_eq!(u.cells()[7], Cell::Alive);
}

#[test]
fn random_seed_is_copied_cell_for_cell() {
    let seed = vec![true, false, false, true, true, false];
    let u = Universe::random_new(3, 2, &seed);
    let cells = u.cells();
    for i in 0..6 {
        let expected = if seed[i] { Cell::Alive } else { Cell::Dead };
        assert_eq!(cells[i], expected, "cell {}", i);
    }
}

#[test]
fn lone_cell_dies_on_3_by_3() {
    for pos in 0..9 {
        let mut seed = vec![false; 9];
        seed[pos] = true;
        let mut u = Universe::random_new(3, 3, &seed);
        u.tick();
        assert_eq!(alive_count(&u), 0, "lone cell at {}", pos);
    }
}

#[test]
fn blinker_oscillates_with_period_two() {
    let mut u = dead_grid(5, 5);
    u.toggle_cell(2, 1);
    u.toggle_cell(2, 2);
    u.toggle_cell(2, 3);
    let start = u.cells().clone();
    u.tick();
    let vertical = u.cells().clone();
    assert_ne!(vertical, start);
    for row in 0..5 {
        for col in 0..5 {
            let expected = if col == 2 && (1..=3).contains(&row) {
                Cell::Alive
            } else {
                Cell::Dead
            };
            assert_eq!(vertical[row * 5 + col], expected, "cell {},{}", row, col);
        }
    }
    u.tick();
    assert_eq!(*u.cells(), start);
}

#[test]
fn glider_translates_by_one_after_four_ticks() {
    let mut u = dead_grid(10, 10);
    u.add_slider(4, 4);
    for _ in 0..4 {
        u.tick();
    }
    let mut expected = dead_grid(10, 10);
    expected.add_slider(5, 5);
    assert_eq!(u.cells(), expected.cells());
}

#[test]
fn corners_wrap_toroidally() {
    // Three live corner cells of a 4x4 grid are all neighbors of the
    // fourth corner across the edges: (3,3) is dead with exactly three
    // live neighbors and is born, while (0,0) is alive with two live
    // neighbors and survives.
    let mut u = dead_grid(4, 4);
    u.toggle_cell(0, 0);
    u.toggle_cell(0, 3);
    u.toggle_cell(3, 0);
    u.tick();
    assert_eq!(u.cells()[3 * 4 + 3], Cell::Alive);
    assert_eq!(u.cells()[0], Cell::Alive);
}

#[test]
fn toggle_twice_restores_the_grid() {
    let mut u = Universe::new(8, 6);
    let before = u.cells().clone();
    u.toggle_cell(3, 4);
    assert_ne!(*u.cells(), before);
    u.toggle_cell(3, 4);
    assert_eq!(*u.cells(), before);
    u.toggle_cell(0, 0);
    u.toggle_cell(0, 0);
    assert_eq!(*u.cells(), before);
}

#[test]
fn toggle_flips_exactly_one_cell() {
    let mut u = dead_grid(4, 4);
    u.toggle_cell(1, 2);
    assert_eq!(alive_count(&u), 1);
    assert_eq!(u.cells()[1 * 4 + 2], Cell::Alive);
}

#[test]
fn stamps_never_kill_cells() {
    let mut u = Universe::random_new(20, 20, &vec![true; 400]);
    u.add_slider(3, 3);
    u.add_pulsar(10, 10);
    assert_eq!(alive_count(&u), 400);

    let mut u = Universe::new(20, 20);
    let before = u.cells().clone();
    u.add_pulsar(9, 9);
    for i in 0..400 {
        if before[i] == Cell::Alive {
            assert_eq!(u.cells()[i], Cell::Alive, "cell {}", i);
        }
        if u.cells()[i] != before[i] {
            assert_eq!(u.cells()[i], Cell::Alive, "cell {}", i);
        }
    }
}

#[test]
fn stamping_twice_is_idempotent() {
    let mut once = dead_grid(12, 12);
    once.add_slider(5, 5);
    let mut twice = dead_grid(12, 12);
    twice.add_slider(5, 5);
    twice.add_slider(5, 5);
    assert_eq!(once.cells(), twice.cells());

    let mut once = dead_grid(17, 17);
    once.add_pulsar(8, 8);
    let mut twice = dead_grid(17, 17);
    twice.add_pulsar(8, 8);
    twice.add_pulsar(8, 8);
    assert_eq!(once.cells(), twice.cells());
}

#[test]
fn slider_stamps_its_five_cells() {
    let mut u = dead_grid(8, 8);
    u.add_slider(3, 3);
    let expected_alive = [(2, 4), (3, 2), (3, 4), (4, 3), (4, 4)];
    for row in 0..8 {
        for col in 0..8 {
            let expected = if expected_alive.contains(&(row, col)) {
                Cell::Alive
            } else {
                Cell::Dead
            };
            assert_eq!(u.cells()[row * 8 + col], expected, "cell {},{}", row, col);
        }
    }
}

#[test]
fn slider_wraps_around_the_edges() {
    let mut u = dead_grid(4, 4);
    u.add_slider(0, 0);
    // Offsets (0,-1), (1,0), (-1,1), (0,1), (1,1) anchored at the corner
    // wrap to (0,3), (1,0), (3,1), (0,1), (1,1).
    let expected_alive = [(0, 3), (1, 0), (3, 1), (0, 1), (1, 1)];
    assert_eq!(alive_count(&u), 5);
    for (row, col) in expected_alive {
        assert_eq!(u.cells()[row * 4 + col], Cell::Alive, "cell {},{}", row, col);
    }
}

#[test]
fn pulsar_stamps_its_48_cells() {
    let block = [
        "  ###   ###",
        "",
        "#    # #    #",
        "#    # #    #",
        "#    # #    #",
        "  ###   ###",
        "",
        "  ###   ###",
        "#    # #    #",
        "#    # #    #",
        "#    # #    #",
        "",
        "  ###   ###",
    ];
    let mut expected = vec![Cell::Dead; 21 * 21];
    for (y, line) in block.iter().enumerate() {
        for (x, value) in line.chars().enumerate() {
            if value == '#' {
                let row = (10 + y as i32 - 7) as usize;
                let col = (10 + x as i32 - 6) as usize;
                expected[row * 21 + col] = Cell::Alive;
            }
        }
    }
    let mut u = dead_grid(21, 21);
    u.add_pulsar(10, 10);
    assert_eq!(alive_count(&u), 48);
    assert_eq!(*u.cells(), expected);
}

#[test]
fn pulsar_oscillates_with_period_three() {
    let mut u = dead_grid(21, 21);
    u.add_pulsar(10, 10);
    let start = u.cells().clone();
    u.tick();
    assert_ne!(*u.cells(), start);
    u.tick();
    assert_ne!(*u.cells(), start);
    u.tick();
    assert_eq!(*u.cells(), start);
}

#[test]
fn block_is_a_still_life() {
    let mut u = dead_grid(6, 6);
    u.toggle_cell(2, 2);
    u.toggle_cell(2, 3);
    u.toggle_cell(3, 2);
    u.toggle_cell(3, 3);
    let before = u.cells().clone();
    u.tick();
    assert_eq!(*u.cells(), before);
}

#[test]
fn tick_applies_the_rule_simultaneously() {
    // An L of three cells: every cell of the 2x2 square they frame sees
    // the right neighbor counts from the *old* generation only, so the
    // square fills in (each has 3 or 2 old neighbors) and nothing else
    // survives of the L's corner.
    let mut u = dead_grid(6, 6);
    u.toggle_cell(2, 2);
    u.toggle_cell(2, 3);
    u.toggle_cell(3, 2);
    u.tick();
    let expected_alive = [(2, 2), (2, 3), (3, 2), (3, 3)];
    assert_eq!(alive_count(&u), 4);
    for (row, col) in expected_alive {
        assert_eq!(u.cells()[row * 6 + col], Cell::Alive, "cell {},{}", row, col);
    }
}

#[test]
fn render_of_dead_grid_is_dead_glyph_lines() {
    let u = dead_grid(3, 2);
    assert_eq!(u.render(), "\u{25fb}\u{25fb}\u{25fb}\n\u{25fb}\u{25fb}\u{25fb}\n");
}

#[test]
fn render_draws_live_cells_filled() {
    let mut u = dead_grid(3, 2);
    u.toggle_cell(1, 0);
    assert_eq!(u.render(), "\u{25fb}\u{25fb}\u{25fb}\n\u{25fc}\u{25fb}\u{25fb}\n");
    let s = u.render();
    assert_eq!(s.lines().count(), 2);
}

#[test]
fn render_of_seeded_grid_matches_cells() {
    let u = Universe::new(5, 4);
    let s = u.render();
    let mut chars = s.chars();
    for row in 0..4 {
        for col in 0..5 {
            let expected = if u.cells()[row * 5 + col] == Cell::Alive {
                '\u{25fc}'
            } else {
                '\u{25fb}'
            };
            assert_eq!(chars.next(), Some(expected), "cell {},{}", row, col);
        }
        assert_eq!(chars.next(), Some('\n'), "row {}", row);
    }
    assert_eq!(chars.next(), None);
}
