use gray_scott::grid::Grid;
use gray_scott::rng::XorShift64;
use gray_scott::seed::{apply_seed, disk_contains, seed_disk, seed_random_cell, SeedKind};

fn in_disk(x: usize, y: usize, cx: usize, cy: usize, radius: usize) -> bool {
    let dx = x as i64 - cx as i64;
    let dy = y as i64 - cy as i64;
    dx * dx + dy * dy < (radius * radius) as i64
}

#[test]
fn xorshift_known_values() {
    let mut rng = XorShift64::new(42);
    assert_eq!(rng.next(), 0xA95514AAA);
    assert_eq!(rng.next(), 0xA00AAAFDF80202BF);
}

#[test]
fn xorshift_zero_seed_is_not_stuck() {
    let mut rng = XorShift64::new(0);
    assert_ne!(rng.state, 0);
    assert_eq!(rng.next(), 0xDC1B77AE0BF34DAD);
}

#[test]
fn xorshift_is_deterministic() {
    let mut a = XorShift64::new(42);
    let mut b = XorShift64::new(42);
    for _ in 0..10 {
        assert_eq!(a.next(), b.next());
    }
}

#[test]
fn disk_contains_matches_square_distance() {
    assert!(disk_contains(5, 5, 5, 5, 1));
    assert!(disk_contains(4, 4, 5, 5, 2));
    assert!(!disk_contains(3, 5, 5, 5, 2));
    assert!(!disk_contains(5, 5, 5, 5, 0));
}

#[test]
fn seed_disk_center_radius_two() {
    // The disk of radius 2 at the center of a 10x10 grid: exactly the 3x3
    // block of cells whose squared distance from (5, 5) is below 4.
    let mut b = Grid::new(10, 10, 0u32).unwrap();
    seed_disk(&mut b, 5, 5, 2, 1);
    for y in 0..10 {
        for x in 0..10 {
            let expected = if in_disk(x, y, 5, 5, 2) { 1 } else { 0 };
            assert_eq!(b.get(x, y), Some(expected), "cell ({x}, {y})");
            let in_block = (4..=6).contains(&x) && (4..=6).contains(&y);
            assert_eq!(expected == 1, in_block);
        }
    }
}

#[test]
fn seed_disk_clips_at_the_border() {
    let mut b = Grid::new(4, 4, 0u32).unwrap();
    seed_disk(&mut b, 0, 0, 3, 1);
    for y in 0..4 {
        for x in 0..4 {
            let expected = if in_disk(x, y, 0, 0, 3) { 1 } else { 0 };
            assert_eq!(b.get(x, y), Some(expected), "cell ({x}, {y})");
        }
    }
    let mut c = Grid::new(4, 4, 0u32).unwrap();
    seed_disk(&mut c, 3, 3, 2, 1);
    for y in 0..4 {
        for x in 0..4 {
            let expected = if in_disk(x, y, 3, 3, 2) { 1 } else { 0 };
            assert_eq!(c.get(x, y), Some(expected), "cell ({x}, {y})");
        }
    }
}

#[test]
fn seed_disk_radius_zero_marks_nothing() {
    let mut b = Grid::new(5, 5, 0u32).unwrap();
    seed_disk(&mut b, 2, 2, 0, 1);
    for y in 0..5 {
        for x in 0..5 {
            assert_eq!(b.get(x, y), Some(0));
        }
    }
}

#[test]
fn seed_random_cell_marks_a_plus_shape() {
    // Seed 7 on an 8x8 grid draws column 7, then row 4; the neighbor to the
    // right falls off the grid and is dropped.
    let mut b = Grid::new(8, 8, 0u32).unwrap();
    let mut rng = XorShift64::new(7);
    seed_random_cell(&mut b, &mut rng, 1);
    let mut probe = XorShift64::new(7);
    let x = (probe.next() % 8) as usize;
    let y = (probe.next() % 8) as usize;
    assert_eq!((x, y), (7, 4));
    for j in 0..8 {
        for i in 0..8 {
            let near = (i == x && j == y)
                || (j == y && (i + 1 == x || i == x + 1))
                || (i == x && (j + 1 == y || j == y + 1));
            let expected = if near { 1 } else { 0 };
            assert_eq!(b.get(i, j), Some(expected), "cell ({i}, {j})");
        }
    }
}

#[test]
fn seed_random_cell_is_deterministic() {
    let mut a = Grid::new(9, 7, 0u32).unwrap();
    let mut b = Grid::new(9, 7, 0u32).unwrap();
    let mut rng_a = XorShift64::new(123);
    let mut rng_b = XorShift64::new(123);
    seed_random_cell(&mut a, &mut rng_a, 1);
    seed_random_cell(&mut b, &mut rng_b, 1);
    for y in 0..7 {
        for x in 0..9 {
            assert_eq!(a.get(x, y), b.get(x, y));
        }
    }
    assert_eq!(rng_a.state, rng_b.state);
}

#[test]
fn apply_seed_dispatches_to_both_variants() {
    let mut by_kind = Grid::new(10, 10, 0u32).unwrap();
    apply_seed(&mut by_kind, SeedKind::Disk { center_x: 5, center_y: 5, radius: 2 }, 1);
    let mut direct = Grid::new(10, 10, 0u32).unwrap();
    seed_disk(&mut direct, 5, 5, 2, 1);
    for y in 0..10 {
        for x in 0..10 {
            assert_eq!(by_kind.get(x, y), direct.get(x, y));
        }
    }

    let mut by_kind = Grid::new(8, 8, 0u32).unwrap();
    apply_seed(&mut by_kind, SeedKind::RandomCell { seed: 7 }, 1);
    let mut direct = Grid::new(8, 8, 0u32).unwrap();
    let mut rng = XorShift64::new(7);
    seed_random_cell(&mut direct, &mut rng, 1);
    for y in 0..8 {
        for x in 0..8 {
            assert_eq!(by_kind.get(x, y), direct.get(x, y));
        }
    }
}
