use conway::{Cell, Universe};

fn grid_from(width: usize, height: usize, live: &[(usize, usize)]) -> Vec<Cell> {
    let mut cells = Vec::new();
    for _ in 0..width * height {
        cells.push(Cell::new(false));
    }
    for &(x, y) in live {
        cells[x + y * width] = Cell::new(true);
    }
    cells
}

fn alive_flags(u: &Universe) -> Vec<bool> {
    let mut flags = Vec::new();
    for y in 0..u.height() {
        for x in 0..u.width() {
            flags.push(u.cell_at(x, y).alive);
        }
    }
    flags
}

fn all_cells(u: &Universe) -> Vec<Cell> {
    let mut cells = Vec::new();
    for y in 0..u.height() {
        for x in 0..u.width() {
            cells.push(u.cell_at(x, y));
        }
    }
    cells
}

#[test]
fn birth_rule_exhaustive() {
    for n in 0..=8 {
        let next = Cell::new(false).update_neibs(n);
        assert_eq!(next.alive, n == 3, "dead cell with {} neighbors", n);
    }
}

#[test]
fn survival_rule_exhaustive() {
    for n in 0..=8 {
        let next = Cell::new(true).update_neibs(n);
        assert_eq!(next.alive, n == 2 || n == 3, "live cell with {} neighbors", n);
    }
}

#[test]
fn heat_reset_on_birth() {
    let born = Cell { alive: false, heat: 10 }.update_neibs(3);
    assert!(born.alive);
    assert_eq!(born.heat, 255);
    let survivor = Cell { alive: true, heat: 77 }.update_neibs(2);
    assert!(survivor.alive);
    assert_eq!(survivor.heat, 255);
}

#[test]
fn heat_decay_while_dead() {
    let c = Cell { alive: false, heat: 200 }.update_neibs(0);
    assert!(!c.alive);
    assert_eq!(c.heat, 198);
    let c = c.update_neibs(1);
    assert_eq!(c.heat, 196);
    let c = c.update_neibs(2);
    assert_eq!(c.heat, 194);

    assert_eq!(Cell { alive: true, heat: 255 }.update_neibs(0).heat, 252);
    assert_eq!(Cell { alive: false, heat: 252 }.update_neibs(0).heat, 249);
    assert_eq!(Cell { alive: false, heat: 1 }.update_neibs(0).heat, 0);
    assert_eq!(Cell { alive: false, heat: 0 }.update_neibs(0).heat, 0);
    assert_eq!(Cell { alive: false, heat: 100 }.update_neibs(0).heat, 99);
}

#[test]
fn cell_colors() {
    assert_eq!(Cell { alive: true, heat: 255 }.get_color(), [0, 255, 255, 255]);
    assert_eq!(Cell { alive: false, heat: 42 }.get_color(), [0, 0, 42, 255]);
    assert_eq!(Cell { alive: false, heat: 0 }.get_color(), [0, 0, 0, 255]);
}

#[test]
fn toroidal_corner_neighbors() {
    // Live cells at (0,0), (3,0) and (0,3) are all wrapped neighbors of the
    // far corner (3,3), which therefore has exactly 3 live neighbors and is
    // born.
    let cells = grid_from(4, 4, &[(0, 0), (3, 0), (0, 3)]);
    let mut u = Universe::from_cells(4, 4, cells, 1);
    u.update();
    assert!(u.cell_at(3, 3).alive);
    assert_eq!(u.cell_at(3, 3).heat, 255);
}

#[test]
fn single_live_cell_dies() {
    let cells = grid_from(3, 3, &[(1, 1)]);
    let mut u = Universe::from_cells(3, 3, cells, 1);
    u.update();
    for y in 0..3 {
        for x in 0..3 {
            assert!(!u.cell_at(x, y).alive);
            assert_eq!(u.cell_at(x, y).heat, 0);
        }
    }
}

#[test]
fn block_is_still_life() {
    let block = [(1, 1), (2, 1), (1, 2), (2, 2)];
    let cells = grid_from(4, 4, &block);
    let mut u = Universe::from_cells(4, 4, cells, 1);
    let before = alive_flags(&u);
    u.update();
    assert_eq!(alive_flags(&u), before);
    for &(x, y) in &block {
        assert_eq!(u.cell_at(x, y).heat, 255);
    }
}

#[test]
fn blinker_oscillates() {
    let vertical = grid_from(5, 5, &[(2, 1), (2, 2), (2, 3)]);
    let mut u = Universe::from_cells(5, 5, vertical, 1);
    u.update();
    let mut expected = vec![false; 25];
    for &(x, y) in &[(1, 2), (2, 2), (3, 2)] {
        expected[x + y * 5] = true;
    }
    assert_eq!(alive_flags(&u), expected);
    u.update();
    let mut expected = vec![false; 25];
    for &(x, y) in &[(2, 1), (2, 2), (2, 3)] {
        expected[x + y * 5] = true;
    }
    assert_eq!(alive_flags(&u), expected);
}

#[test]
fn worker_counts_agree() {
    let pattern = [(0, 0), (1, 0), (2, 1), (3, 2), (1, 3), (2, 3), (0, 2)];
    let mut single = Universe::from_cells(4, 4, grid_from(4, 4, &pattern), 1);
    let mut quad = Universe::from_cells(4, 4, grid_from(4, 4, &pattern), 4);
    single.update();
    quad.update();
    assert_eq!(all_cells(&single), all_cells(&quad));
}

#[test]
fn worker_remainder_covered() {
    // 9 cells over 5 workers: the chunk size truncates to 1 and the last
    // worker takes the remainder, so every cell is still updated.
    let pattern = [(0, 0), (1, 0), (2, 0), (0, 2)];
    let mut single = Universe::from_cells(3, 3, grid_from(3, 3, &pattern), 1);
    let mut five = Universe::from_cells(3, 3, grid_from(3, 3, &pattern), 5);
    single.update();
    five.update();
    assert_eq!(all_cells(&single), all_cells(&five));

    // More workers than cells: every chunk is empty except the last, which
    // takes the whole grid.
    let mut twelve = Universe::from_cells(3, 3, grid_from(3, 3, &pattern), 12);
    twelve.update();
    assert_eq!(all_cells(&single), all_cells(&twelve));
}

#[test]
fn fixed_seed_is_deterministic() {
    let a = Universe::new(8, 8, 1, 2, 1, 42);
    let b = Universe::new(8, 8, 1, 2, 1, 42);
    assert_eq!(all_cells(&a), all_cells(&b));
}

#[test]
fn fixed_seed_update_paths_agree() {
    let mut single = Universe::new(8, 8, 1, 2, 1, 7);
    let mut quad = Universe::new(8, 8, 1, 2, 4, 7);
    assert_eq!(all_cells(&single), all_cells(&quad));
    single.update();
    quad.update();
    assert_eq!(all_cells(&single), all_cells(&quad));
}

#[test]
fn ratio_zero_gives_all_dead() {
    let u = Universe::new(6, 4, 0, 1, 2, 3);
    for c in all_cells(&u) {
        assert!(!c.alive);
        assert_eq!(c.heat, 0);
    }
}

#[test]
fn ratio_one_gives_all_alive() {
    let u = Universe::new(6, 4, 5, 5, 2, 3);
    for c in all_cells(&u) {
        assert!(c.alive);
        assert_eq!(c.heat, 0);
    }
}

#[test]
fn render_all_dead_is_black_opaque() {
    let u = Universe::from_cells(3, 3, grid_from(3, 3, &[]), 1);
    let mut frame = vec![7u8; 4 * 9];
    u.render(&mut frame);
    for pixel in frame.chunks(4) {
        assert_eq!(pixel, &[0u8, 0, 0, 255][..]);
    }
}

#[test]
fn render_alive_and_heat() {
    let mut cells = grid_from(2, 1, &[(0, 0)]);
    cells[1] = Cell { alive: false, heat: 9 };
    let u = Universe::from_cells(2, 1, cells, 1);
    let mut frame = vec![0u8; 8];
    u.render(&mut frame);
    assert_eq!(&frame[0..4], &[0u8, 255, 255, 255][..]);
    assert_eq!(&frame[4..8], &[0u8, 0, 9, 255][..]);
}

#[test]
fn chunked_update_matches_update() {
    let pattern = [(0, 0), (1, 1), (2, 2), (3, 3), (4, 4), (5, 5), (1, 4), (4, 1), (2, 5)];
    let mut whole = Universe::from_cells(6, 6, grid_from(6, 6, &pattern), 3);
    let mut chunked = Universe::from_cells(6, 6, grid_from(6, 6, &pattern), 3);

    let mut next = Vec::new();
    for c in 0..chunked.worker_count() {
        let (start, len) = chunked.chunk_bounds(c);
        assert_eq!(start, next.len());
        let mut chunk = chunked.compute_chunk(start, len);
        next.append(&mut chunk);
    }
    assert_eq!(next.len(), chunked.cell_count());
    chunked.install_generation(next);

    whole.update();
    assert_eq!(all_cells(&whole), all_cells(&chunked));
}

#[test]
fn heat_decays_per_generation_on_dead_grid() {
    let mut cells = grid_from(3, 3, &[]);
    cells[0] = Cell { alive: false, heat: 200 };
    let mut u = Universe::from_cells(3, 3, cells, 1);
    let expected = [198u8, 196, 194, 192, 190];
    for &e in &expected {
        u.update();
        assert_eq!(u.cell_at(0, 0).heat, e);
        assert!(!u.cell_at(0, 0).alive);
    }
}
