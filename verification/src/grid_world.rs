//! The rectangular arena of terrain cells that Robots move through.

use vstd::prelude::*;

use crate::errors::EditError;

verus! {

/// World-grid terrain. Out-of-range coordinates behave as `Wall`, and `Gap`
/// is impassable like `Wall`.
#[derive(Clone, Copy, Debug, PartialEq, Eq, Structural)]
pub enum Cell {
    Empty,
    Wall,
    Gap,
}

/// Row-major indexing: a coordinate inside a `w` by `h` grid maps to an index
/// inside the backing sequence of length `w * h`.
pub proof fn lemma_row_major_index(w: int, h: int, x: int, y: int)
    requires
        0 <= x < w,
        0 <= y < h,
    ensures
        0 <= y * w + x < w * h,
{
    assert(0 <= y * w + x < w * h) by (nonlinear_arith)
        requires
            0 <= x < w,
            0 <= y < h,
    ;
}

/// The mathematical contents of a [`GridWorld`].
#[verifier::ext_equal]
pub struct GridWorldView {
    pub width: nat,
    pub height: nat,
    pub cells: Seq<Cell>,
}

impl GridWorldView {
    /// Well-formedness: the backing sequence matches the fixed dimensions and
    /// every in-range coordinate fits in an `i32` query.
    pub open spec fn wf(self) -> bool {
        &&& self.cells.len() == self.width * self.height
        &&& self.width <= i32::MAX
        &&& self.height <= i32::MAX
    }

    /// Whether (x, y) lies inside the grid.
    pub open spec fn in_range(self, x: int, y: int) -> bool {
        0 <= x < self.width && 0 <= y < self.height
    }

    /// The terrain at (x, y): the stored cell in range, `Wall` anywhere else.
    pub open spec fn spec_cell_at(self, x: int, y: int) -> Cell {
        if self.in_range(x, y) {
            self.cells[y * self.width + x]
        } else {
            Cell::Wall
        }
    }
}

/// The world grid: a rectangle of cells with fixed dimensions.
pub struct GridWorld {
    width: usize,
    height: usize,
    cells: Vec<Cell>,
}

impl View for GridWorld {
    type V = GridWorldView;

    closed spec fn view(&self) -> GridWorldView {
        GridWorldView {
            width: self.width as nat,
            height: self.height as nat,
            cells: self.cells@,
        }
    }
}

impl GridWorld {
    /// See [`GridWorldView::wf`].
    pub open spec fn wf(&self) -> bool {
        self@.wf()
    }

    /// Create an all-`Empty` grid of the given dimensions. The shape is
    /// immutable afterwards.
    pub fn new(width: usize, height: usize) -> (r: GridWorld)
        requires
            width <= i32::MAX,
            height <= i32::MAX,
            width * height <= usize::MAX,
        ensures
            r.wf(),
            r@ == (GridWorldView {
                width: width as nat,
                height: height as nat,
                cells: Seq::new((width * height) as nat, |i: int| Cell::Empty),
            }),
    {
        let n: usize = width * height;
        let mut cells: Vec<Cell> = Vec::new();
        let mut i: usize = 0;
        while i < n
            invariant
                i <= n,
                cells@ =~= Seq::new(i as nat, |j: int| Cell::Empty),
            decreases n - i,
        {
            cells.push(Cell::Empty);
            i = i + 1;
        }
        let r = GridWorld { width, height, cells };
        proof {
            assert(r@.cells =~= Seq::new((width * height) as nat, |i: int| Cell::Empty));
        }
        r
    }

    /// The grid width.
    pub fn width(&self) -> (r: usize)
        ensures
            r == self@.width,
    {
        self.width
    }

    /// The grid height.
    pub fn height(&self) -> (r: usize)
        ensures
            r == self@.height,
    {
        self.height
    }

    /// The terrain at (x, y). Total: returns `Wall` for any coordinate
    /// outside the grid and never fails.
    pub fn cell_at(&self, x: i32, y: i32) -> (r: Cell)
        requires
            self.wf(),
        ensures
            r == self@.spec_cell_at(x as int, y as int),
    {
        if x < 0 || y < 0 {
            return Cell::Wall;
        }
        let xu: usize = x as usize;
        let yu: usize = y as usize;
        if xu >= self.width || yu >= self.height {
            return Cell::Wall;
        }
        let n_cells: usize = self.cells.len();
        proof {
            lemma_row_major_index(self@.width as int, self@.height as int, xu as int, yu as int);
            assert((yu as int) * (self@.width as int) + (xu as int) < n_cells as int);
        }
        let idx: usize = yu * self.width + xu;
        self.cells[idx]
    }

    /// Overwrite the terrain at (x, y), rejecting out-of-range coordinates
    /// and leaving the grid unchanged on rejection.
    pub fn set_cell(&mut self, x: i32, y: i32, cell: Cell) -> (r: Result<(), EditError>)
        requires
            old(self).wf(),
        ensures
            final(self).wf(),
            final(self)@.width == old(self)@.width,
            final(self)@.height == old(self)@.height,
            match r {
                Ok(()) => old(self)@.in_range(x as int, y as int) && final(self)@.cells == old(
                    self,
                )@.cells.update(y * old(self)@.width + x, cell),
                Err(e) => e == EditError::OutOfBounds && !old(self)@.in_range(x as int, y as int)
                    && final(self)@ == old(self)@,
            },
    {
        if x < 0 || y < 0 {
            return Err(EditError::OutOfBounds);
        }
        let xu: usize = x as usize;
        let yu: usize = y as usize;
        if xu >= self.width || yu >= self.height {
            return Err(EditError::OutOfBounds);
        }
        let n_cells: usize = self.cells.len();
        proof {
            lemma_row_major_index(self@.width as int, self@.height as int, xu as int, yu as int);
            assert((yu as int) * (self@.width as int) + (xu as int) < n_cells as int);
        }
        let idx: usize = yu * self.width + xu;
        self.cells[idx] = cell;
        Ok(())
    }
}

} // verus!
