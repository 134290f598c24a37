//! Seeding of the initial perturbation region: a filled disk around a given
//! center, or one pseudorandomly chosen cell together with its four
//! orthogonal neighbors. Both strategies are named variants chosen at
//! construction time.

use vstd::prelude::*;
use crate::grid::Grid;
use crate::rng::{XorShift64, seed_state, xorshift_step};

verus! {

/// Largest accepted center-plus-radius extent of a seed disk; keeps the
/// squared distances of the membership test inside 64-bit arithmetic.
pub const SEED_COORD_LIMIT: usize = 0x4000_0000;

/// Whether `(x, y)` lies strictly inside the disk of the given radius
/// around `(cx, cy)`.
pub open spec fn in_disk(x: int, y: int, cx: int, cy: int, radius: int) -> bool {
    (x - cx) * (x - cx) + (y - cy) * (y - cy) < radius * radius
}

/// Whether `(i, j)` is `(x, y)` itself or one of its four orthogonal
/// neighbors.
pub open spec fn orthogonal_near(x: int, y: int, i: int, j: int) -> bool {
    (i == x && j == y)
    || (j == y && (i + 1 == x || i == x + 1))
    || (i == x && (j + 1 == y || j == y + 1))
}

/// Column chosen by the pseudorandom cell seeding, from a generator in the
/// given state over a grid of the given width.
pub open spec fn random_cell_x(state: u64, width: int) -> int {
    xorshift_step(state) as int % width
}

/// Row chosen by the pseudorandom cell seeding: the generator is stepped a
/// second time after the column draw.
pub open spec fn random_cell_y(state: u64, height: int) -> int {
    xorshift_step(xorshift_step(state)) as int % height
}

/// Every cell of a disk lies strictly within `radius` of the center on both
/// axes.
pub proof fn lemma_disk_window(x: int, y: int, cx: int, cy: int, radius: int)
    requires
        0 <= radius,
        in_disk(x, y, cx, cy, radius),
    ensures
        cx - radius < x < cx + radius,
        cy - radius < y < cy + radius,
{
    assert(cx - radius < x < cx + radius && cy - radius < y < cy + radius) by (nonlinear_arith)
        requires
            0 <= radius,
            (x - cx) * (x - cx) + (y - cy) * (y - cy) < radius * radius,
    ;
}

/// The disk membership test of the seeding loop.
pub fn disk_contains(x: usize, y: usize, cx: usize, cy: usize, radius: usize) -> (r: bool)
    requires
        x <= SEED_COORD_LIMIT,
        y <= SEED_COORD_LIMIT,
        cx <= SEED_COORD_LIMIT,
        cy <= SEED_COORD_LIMIT,
        radius <= SEED_COORD_LIMIT,
    ensures
        r == in_disk(x as int, y as int, cx as int, cy as int, radius as int),
{
    let dx = x as i64 - cx as i64;
    let dy = y as i64 - cy as i64;
    proof {
        assert(0 <= dx * dx <= 0x1000_0000_0000_0000i64) by (nonlinear_arith)
            requires
                -0x4000_0000 <= dx <= 0x4000_0000,
        ;
        assert(0 <= dy * dy <= 0x1000_0000_0000_0000i64) by (nonlinear_arith)
            requires
                -0x4000_0000 <= dy <= 0x4000_0000,
        ;
        assert(0 <= radius as i64 * radius as i64 <= 0x1000_0000_0000_0000i64) by (nonlinear_arith)
            requires
                0 <= radius as i64 <= 0x4000_0000,
        ;
    }
    let rr = radius as i64 * radius as i64;
    dx * dx + dy * dy < rr
}

/// Marks with `value` every grid cell strictly inside the disk of the given
/// radius around `(center_x, center_y)`; all other cells keep their old
/// value. The part of the disk that falls off the grid is silently dropped.
pub fn seed_disk<T: Copy>(
    grid: &mut Grid<T>,
    center_x: usize,
    center_y: usize,
    radius: usize,
    value: T,
)
    requires
        old(grid).wf(),
        center_x + radius <= SEED_COORD_LIMIT,
        center_y + radius <= SEED_COORD_LIMIT,
    ensures
        final(grid).wf(),
        final(grid).width == old(grid).width,
        final(grid).height == old(grid).height,
        forall|i: int, j: int| 0 <= i < old(grid).width && 0 <= j < old(grid).height
            ==> #[trigger] final(grid).cell(i, j) == (if in_disk(
                i,
                j,
                center_x as int,
                center_y as int,
                radius as int,
            ) {
                value
            } else {
                old(grid).cell(i, j)
            }),
{
    let ghost orig: Grid<T> = *grid;
    let w = grid.width;
    let h = grid.height;
    let x0 = if center_x >= radius { center_x - radius } else { 0 };
    let y0 = if center_y >= radius { center_y - radius } else { 0 };
    let x_end = center_x + radius;
    let y_end = center_y + radius;
    let mut y = y0;
    proof {
        assert forall|i: int, j: int| 0 <= i < w && 0 <= j < h
            implies #[trigger] grid.cell(i, j) == (if in_disk(
                i, j, center_x as int, center_y as int, radius as int) && j < y0 {
                value
            } else {
                orig.cell(i, j)
            }) by {
            if in_disk(i, j, center_x as int, center_y as int, radius as int) {
                lemma_disk_window(i, j, center_x as int, center_y as int, radius as int);
            }
        }
    }
    while y < y_end
        invariant
            grid.wf(),
            grid.width == w,
            grid.height == h,
            orig.wf(),
            orig.width == w,
            orig.height == h,
            center_x + radius <= SEED_COORD_LIMIT,
            center_y + radius <= SEED_COORD_LIMIT,
            x0 == (if center_x >= radius { center_x - radius } else { 0 }),
            x_end == center_x + radius,
            y_end == center_y + radius,
            y0 <= y <= y_end,
            forall|i: int, j: int| 0 <= i < w && 0 <= j < h
                ==> #[trigger] grid.cell(i, j) == (if in_disk(
                    i, j, center_x as int, center_y as int, radius as int) && j < y {
                    value
                } else {
                    orig.cell(i, j)
                }),
        decreases y_end - y,
    {
        let mut x = x0;
        proof {
            assert forall|i: int, j: int| 0 <= i < w && 0 <= j < h
                implies #[trigger] grid.cell(i, j) == (if in_disk(
                    i, j, center_x as int, center_y as int, radius as int)
                    && (j < y || (j == y && i < x0)) {
                    value
                } else {
                    orig.cell(i, j)
                }) by {
                if in_disk(i, j, center_x as int, center_y as int, radius as int) {
                    lemma_disk_window(i, j, center_x as int, center_y as int, radius as int);
                }
            }
        }
        while x < x_end
            invariant
                grid.wf(),
                grid.width == w,
                grid.height == h,
                orig.wf(),
                orig.width == w,
                orig.height == h,
                center_x + radius <= SEED_COORD_LIMIT,
                center_y + radius <= SEED_COORD_LIMIT,
                x_end == center_x + radius,
                y < y_end,
                y_end == center_y + radius,
                x0 <= x <= x_end,
                forall|i: int, j: int| 0 <= i < w && 0 <= j < h
                    ==> #[trigger] grid.cell(i, j) == (if in_disk(
                        i, j, center_x as int, center_y as int, radius as int)
                        && (j < y || (j == y && i < x)) {
                        value
                    } else {
                        orig.cell(i, j)
                    }),
            decreases x_end - x,
        {
            if disk_contains(x, y, center_x, center_y, radius) {
                grid.set(x, y, value);
            }
            x = x + 1;
        }
        proof {
            assert forall|i: int, j: int| 0 <= i < w && 0 <= j < h
                implies #[trigger] grid.cell(i, j) == (if in_disk(
                    i, j, center_x as int, center_y as int, radius as int) && j < y + 1 {
                    value
                } else {
                    orig.cell(i, j)
                }) by {
                if in_disk(i, j, center_x as int, center_y as int, radius as int) {
                    lemma_disk_window(i, j, center_x as int, center_y as int, radius as int);
                }
            }
        }
        y = y + 1;
    }
    proof {
        assert forall|i: int, j: int| 0 <= i < w && 0 <= j < h
            implies #[trigger] grid.cell(i, j) == (if in_disk(
                i, j, center_x as int, center_y as int, radius as int) {
                value
            } else {
                orig.cell(i, j)
            }) by {
            if in_disk(i, j, center_x as int, center_y as int, radius as int) {
                lemma_disk_window(i, j, center_x as int, center_y as int, radius as int);
            }
        }
    }
}

/// Marks with `value` one pseudorandomly chosen cell and its four orthogonal
/// neighbors (those that exist; the choice may fall on the border). The
/// draw is deterministic in the generator's state, so equal seeds perturb
/// equal cells.
pub fn seed_random_cell<T: Copy>(grid: &mut Grid<T>, rng: &mut XorShift64, value: T)
    requires
        old(grid).wf(),
    ensures
        final(grid).wf(),
        final(grid).width == old(grid).width,
        final(grid).height == old(grid).height,
        final(rng).state == xorshift_step(xorshift_step(old(rng).state)),
        forall|i: int, j: int| 0 <= i < old(grid).width && 0 <= j < old(grid).height
            ==> #[trigger] final(grid).cell(i, j) == (if orthogonal_near(
                random_cell_x(old(rng).state, old(grid).width as int),
                random_cell_y(old(rng).state, old(grid).height as int),
                i,
                j,
            ) {
                value
            } else {
                old(grid).cell(i, j)
            }),
{
    let w = grid.width;
    let h = grid.height;
    let x = (rng.next() % (w as u64)) as usize;
    let y = (rng.next() % (h as u64)) as usize;
    grid.set(x, y, value);
    grid.set(x + 1, y, value);
    if x > 0 {
        grid.set(x - 1, y, value);
    }
    grid.set(x, y + 1, value);
    if y > 0 {
        grid.set(x, y - 1, value);
    }
}

/// How the initial perturbed region (`B = 1`) is chosen at engine
/// construction: a filled disk around an explicit center, or one seeded
/// pseudorandom cell plus its orthogonal neighbors.
#[derive(Debug, Clone, Copy, PartialEq, Eq, Structural)]
pub enum SeedKind {
    /// A filled disk of the given radius around `(center_x, center_y)`.
    Disk { center_x: usize, center_y: usize, radius: usize },
    /// One cell drawn from a generator seeded with `seed`, plus its four
    /// orthogonal neighbors.
    RandomCell { seed: u64 },
}

/// Applies the chosen seeding strategy to a grid.
pub fn apply_seed<T: Copy>(grid: &mut Grid<T>, kind: SeedKind, value: T)
    requires
        old(grid).wf(),
        kind matches SeedKind::Disk { center_x, center_y, radius }
            ==> center_x + radius <= SEED_COORD_LIMIT && center_y + radius <= SEED_COORD_LIMIT,
    ensures
        final(grid).wf(),
        final(grid).width == old(grid).width,
        final(grid).height == old(grid).height,
        kind matches SeedKind::Disk { center_x, center_y, radius }
            ==> forall|i: int, j: int| 0 <= i < old(grid).width && 0 <= j < old(grid).height
                ==> #[trigger] final(grid).cell(i, j) == (if in_disk(
                    i, j, center_x as int, center_y as int, radius as int) {
                    value
                } else {
                    old(grid).cell(i, j)
                }),
        kind matches SeedKind::RandomCell { seed }
            ==> forall|i: int, j: int| 0 <= i < old(grid).width && 0 <= j < old(grid).height
                ==> #[trigger] final(grid).cell(i, j) == (if orthogonal_near(
                    random_cell_x(seed_state(seed), old(grid).width as int),
                    random_cell_y(seed_state(seed), old(grid).height as int),
                    i,
                    j,
                ) {
                    value
                } else {
                    old(grid).cell(i, j)
                }),
{
    match kind {
        SeedKind::Disk { center_x, center_y, radius } => {
            seed_disk(grid, center_x, center_y, radius, value);
        },
        SeedKind::RandomCell { seed } => {
            let mut rng = XorShift64::new(seed);
            seed_random_cell(grid, &mut rng, value);
        },
    }
}

} // verus!
