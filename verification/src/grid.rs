//! Dense 2D storage for one chemical species, with bounds-checked access
//! and the clamp-to-edge neighbor lookup used by the Laplacian stencil.

use vstd::prelude::*;
use vstd::pervasive::VecAdditionalExecFns;

verus! {

/// Why a grid could not be constructed.
#[derive(Debug, Clone, Copy, PartialEq, Eq, Structural)]
pub enum GridError {
    /// A dimension was zero: no cell layout exists.
    InvalidDimensions,
    /// The supplied backing store does not hold exactly `width * height` cells.
    CellCountMismatch,
}

/// Position of the row-major flat index of cell `(x, y)` in a grid `w` cells
/// wide and `h` cells tall.
pub proof fn lemma_row_major_bound(x: int, y: int, w: int, h: int)
    requires
        0 <= x < w,
        0 <= y < h,
    ensures
        0 <= y * w + x < w * h,
{
    assert(0 <= y * w + x < w * h) by (nonlinear_arith)
        requires
            0 <= x < w,
            0 <= y < h,
    ;
}

/// Row-major indexing is injective over in-range coordinates: two cells with
/// the same flat index are the same cell.
pub proof fn lemma_row_major_injective(x1: int, y1: int, x2: int, y2: int, w: int)
    requires
        0 <= x1 < w,
        0 <= x2 < w,
        0 <= y1,
        0 <= y2,
        y1 * w + x1 == y2 * w + x2,
    ensures
        x1 == x2,
        y1 == y2,
{
    assert(x1 == x2 && y1 == y2) by (nonlinear_arith)
        requires
            0 <= x1 < w,
            0 <= x2 < w,
            0 <= y1,
            0 <= y2,
            y1 * w + x1 == y2 * w + x2,
    ;
}

/// A coordinate stepped by `d` and clamped into `0 .. len`: the clamp-to-edge
/// boundary policy, under which an out-of-range neighbor reflects the nearest
/// border cell.
pub open spec fn clamped_coord(c: int, d: int, len: int) -> int {
    if c + d < 0 {
        0
    } else if c + d >= len {
        len - 1
    } else {
        c + d
    }
}

/// The clamp-to-edge policy commutes with mirroring the axis: stepping the
/// mirrored coordinate by the mirrored offset lands on the mirror of where
/// the original step lands. No border therefore breaks a symmetry that the
/// field itself has.
pub proof fn lemma_clamped_coord_reflect(c: int, d: int, len: int)
    requires
        1 <= len,
        0 <= c < len,
    ensures
        clamped_coord(len - 1 - c, -d, len) == len - 1 - clamped_coord(c, d, len),
{
}

/// A dense grid of `width * height` cells in row-major order
/// (flat index = `y * width + x`). Dimensions are fixed for the grid's
/// lifetime; a grid for the next tick is built wholesale, never mutated
/// while the previous one is still being read.
#[derive(Debug)]
pub struct Grid<T> {
    /// Number of columns; positive for a well-formed grid.
    pub width: usize,
    /// Number of rows; positive for a well-formed grid.
    pub height: usize,
    /// The backing store, one cell per coordinate in row-major order.
    pub cells: Vec<T>,
}

impl<T> View for Grid<T> {
    type V = Seq<T>;

    open spec fn view(&self) -> Seq<T> {
        self.cells@
    }
}

impl<T: Copy> Grid<T> {
    /// Both dimensions are positive and the backing store holds exactly one
    /// cell per coordinate.
    pub open spec fn wf(self) -> bool {
        0 < self.width && 0 < self.height && self@.len() == self.width * self.height
    }

    /// The cell at `(x, y)`, read from the row-major backing store.
    pub open spec fn cell(self, x: int, y: int) -> T {
        self@[y * self.width + x]
    }

    /// Allocates a `width * height` grid with every cell set to `default`.
    /// Zero-sized dimensions are rejected; no partial grid is produced.
    pub fn new(width: usize, height: usize, default: T) -> (r: Result<Self, GridError>)
        ensures
            (r is Ok) <==> (0 < width && 0 < height && width * height <= usize::MAX),
            r matches Ok(g) ==> g.wf() && g.width == width && g.height == height
                && forall|x: int, y: int| 0 <= x < width && 0 <= y < height
                    ==> #[trigger] g.cell(x, y) == default,
            r matches Err(e) ==> e == GridError::InvalidDimensions,
    {
        if width == 0 || height == 0 {
            return Err(GridError::InvalidDimensions);
        }
        let size = match width.checked_mul(height) {
            Some(n) => n,
            None => {
                return Err(GridError::InvalidDimensions);
            },
        };
        let mut cells: Vec<T> = Vec::new();
        let mut i: usize = 0;
        while i < size
            invariant
                i <= size,
                cells@.len() == i,
                forall|k: int| 0 <= k < i ==> cells@[k] == default,
            decreases size - i,
        {
            cells.push(default);
            i = i + 1;
        }
        let g = Grid { width, height, cells };
        proof {
            assert forall|x: int, y: int| 0 <= x < width && 0 <= y < height
                implies #[trigger] g.cell(x, y) == default by {
                lemma_row_major_bound(x, y, width as int, height as int);
            }
        }
        Ok(g)
    }

    /// Wraps an already-computed row-major backing store as a grid, as the
    /// update step does after computing the next tick's cells. The store
    /// must hold exactly `width * height` cells.
    pub fn from_cells(width: usize, height: usize, cells: Vec<T>) -> (r: Result<Self, GridError>)
        ensures
            (r is Ok) <==> (0 < width && 0 < height && cells@.len() == width * height),
            r matches Ok(g) ==> g.wf() && g.width == width && g.height == height && g@ == cells@,
            r matches Err(e) ==> e == (if width == 0 || height == 0 {
                GridError::InvalidDimensions
            } else {
                GridError::CellCountMismatch
            }),
    {
        let len: usize = cells.len();
        if width == 0 || height == 0 {
            return Err(GridError::InvalidDimensions);
        }
        let expected = match width.checked_mul(height) {
            Some(n) => n,
            None => {
                return Err(GridError::CellCountMismatch);
            },
        };
        if len != expected {
            return Err(GridError::CellCountMismatch);
        }
        Ok(Grid { width, height, cells })
    }

    /// Bounds-checked read: the cell value if `(x, y)` is in range, and
    /// "absent" (never a crash) otherwise.
    pub fn get(&self, x: usize, y: usize) -> (r: Option<T>)
        requires
            self.wf(),
        ensures
            x < self.width && y < self.height ==> r == Some(self.cell(x as int, y as int)),
            !(x < self.width && y < self.height) ==> r is None,
    {
        if x < self.width && y < self.height {
            let _len: usize = self.cells.len();
            proof {
                lemma_row_major_bound(x as int, y as int, self.width as int, self.height as int);
            }
            Some(self.cells[y * self.width + x])
        } else {
            None
        }
    }

    /// Bounds-checked write: stores `value` at `(x, y)` if in range, and is
    /// a silent no-op otherwise (the forgiving edge policy that keeps
    /// boundary seeding simple).
    pub fn set(&mut self, x: usize, y: usize, value: T)
        requires
            old(self).wf(),
        ensures
            final(self).wf(),
            final(self).width == old(self).width,
            final(self).height == old(self).height,
            x < old(self).width && y < old(self).height
                ==> final(self).cell(x as int, y as int) == value,
            forall|i: int, j: int| 0 <= i < old(self).width && 0 <= j < old(self).height
                && !(i == x && j == y)
                ==> #[trigger] final(self).cell(i, j) == old(self).cell(i, j),
    {
        if x < self.width && y < self.height {
            let _len: usize = self.cells.len();
            proof {
                lemma_row_major_bound(x as int, y as int, self.width as int, self.height as int);
            }
            self.cells.set(y * self.width + x, value);
            proof {
                assert forall|i: int, j: int| 0 <= i < self.width && 0 <= j < self.height
                    && !(i == x && j == y)
                    implies #[trigger] self.cell(i, j) == old(self).cell(i, j) by {
                    lemma_row_major_bound(i, j, self.width as int, self.height as int);
                    if j * self.width + i == y * self.width + x {
                        lemma_row_major_injective(i, j, x as int, y as int, self.width as int);
                    }
                }
            }
        }
    }

    /// The stencil neighbor of `(x, y)` at offset `(dx, dy)` under the
    /// clamp-to-edge boundary policy: out-of-range neighbor coordinates are
    /// clamped to the nearest valid coordinate, so border cells reflect
    /// their own edge.
    pub fn stencil_neighbor(&self, x: usize, y: usize, dx: i32, dy: i32) -> (v: T)
        requires
            self.wf(),
            x < self.width,
            y < self.height,
            -1 <= dx <= 1,
            -1 <= dy <= 1,
        ensures
            v == self.cell(
                clamped_coord(x as int, dx as int, self.width as int),
                clamped_coord(y as int, dy as int, self.height as int),
            ),
    {
        let nx = if dx < 0 {
            if x > 0 { x - 1 } else { 0 }
        } else if dx > 0 {
            if x + 1 < self.width { x + 1 } else { self.width - 1 }
        } else {
            x
        };
        let ny = if dy < 0 {
            if y > 0 { y - 1 } else { 0 }
        } else if dy > 0 {
            if y + 1 < self.height { y + 1 } else { self.height - 1 }
        } else {
            y
        };
        let _len: usize = self.cells.len();
        proof {
            lemma_row_major_bound(nx as int, ny as int, self.width as int, self.height as int);
        }
        self.cells[ny * self.width + nx]
    }
}

/// A field that is symmetric under 180-degree rotation reads symmetrically
/// through the clamp-to-edge stencil: a mirrored cell sees, at the mirrored
/// offset, a neighbor of equal value. For a radially symmetric seed with
/// constant parameters, this is the boundary-handling half of the field
/// staying symmetric from tick to tick.
pub proof fn lemma_stencil_preserves_symmetry<T: Copy>(g: Grid<T>, x: int, y: int, dx: int, dy: int)
    requires
        g.wf(),
        0 <= x < g.width,
        0 <= y < g.height,
        forall|i: int, j: int| 0 <= i < g.width && 0 <= j < g.height
            ==> #[trigger] g.cell(i, j) == g.cell(g.width - 1 - i, g.height - 1 - j),
    ensures
        g.cell(clamped_coord(x, dx, g.width as int), clamped_coord(y, dy, g.height as int))
            == g.cell(
            clamped_coord(g.width - 1 - x, -dx, g.width as int),
            clamped_coord(g.height - 1 - y, -dy, g.height as int),
        ),
{
    lemma_clamped_coord_reflect(x, dx, g.width as int);
    lemma_clamped_coord_reflect(y, dy, g.height as int);
}

} // verus!
