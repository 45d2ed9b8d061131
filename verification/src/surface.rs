use vstd::prelude::*;

verus! {

/// One character cell of a drawing surface: a glyph plus opaque style and
/// color codes that the layer passes through unchanged.
#[derive(Clone, Copy, PartialEq, Eq, Structural, Debug)]
pub struct Cell {
    pub ch: char,
    pub style: u16,
    pub fg: u16,
    pub bg: u16,
}

impl Cell {
    /// The cell a freshly created surface is filled with: a space glyph with
    /// all style and color codes zero.
    pub open spec fn spec_blank() -> Cell {
        Cell { ch: ' ', style: 0, fg: 0, bg: 0 }
    }

    pub fn blank() -> (c: Cell)
        ensures
            c == Cell::spec_blank(),
    {
        Cell { ch: ' ', style: 0, fg: 0, bg: 0 }
    }
}

/// The mathematical value of a drawing surface: its dimensions and the
/// row-major sequence of its cells.
#[verifier::ext_equal]
pub struct SurfaceView {
    pub width: nat,
    pub height: nat,
    pub cells: Seq<Cell>,
}

impl SurfaceView {
    /// Row-major position of the cell at column `x`, row `y`.
    pub open spec fn index_of(self, x: int, y: int) -> int {
        y * self.width + x
    }

    pub open spec fn in_bounds(self, x: int, y: int) -> bool {
        0 <= x < self.width && 0 <= y < self.height
    }

    pub open spec fn cell_at(self, x: int, y: int) -> Cell {
        self.cells[self.index_of(x, y)]
    }
}

/// A character-grid drawing target. Cells are addressed by column and row;
/// a write outside the grid is silently discarded, so widgets may draw at any
/// coordinates without checking the surface's size first.
pub struct Surface {
    width: usize,
    height: usize,
    cells: Vec<Cell>,
}

impl View for Surface {
    type V = SurfaceView;

    closed spec fn view(&self) -> SurfaceView {
        SurfaceView {
            width: self.width as nat,
            height: self.height as nat,
            cells: self.cells@,
        }
    }
}

impl Surface {
    #[verifier::type_invariant]
    spec fn inv(self) -> bool {
        self.cells@.len() == self.width * self.height
    }

    /// A surface of the given dimensions, every cell blank.
    pub fn new(width: usize, height: usize) -> (s: Surface)
        requires
            width * height <= usize::MAX,
        ensures
            s@.width == width,
            s@.height == height,
            s@.cells == Seq::new((width * height) as nat, |i: int| Cell::spec_blank()),
    {
        let n: usize = width * height;
        let mut cells: Vec<Cell> = Vec::new();
        let mut i: usize = 0;
        while i < n
            invariant
                i <= n,
                cells@ =~= Seq::new(i as nat, |j: int| Cell::spec_blank()),
            decreases n - i,
        {
            cells.push(Cell::blank());
            i = i + 1;
            proof {
                assert(cells@ =~= Seq::new(i as nat, |j: int| Cell::spec_blank()));
            }
        }
        Surface { width, height, cells }
    }

    /// The surface's width in columns.
    pub fn width(&self) -> (w: usize)
        ensures
            w == self@.width,
    {
        self.width
    }

    /// The surface's height in rows.
    pub fn height(&self) -> (h: usize)
        ensures
            h == self@.height,
    {
        self.height
    }

    /// Write `cell` at column `x`, row `y`. A position outside the grid is
    /// silently discarded: clipping is the surface's duty, not the widget's.
    pub fn put(&mut self, x: usize, y: usize, cell: Cell)
        ensures
            final(self)@.width == old(self)@.width,
            final(self)@.height == old(self)@.height,
            old(self)@.in_bounds(x as int, y as int) ==> final(self)@.cells == old(
                self,
            )@.cells.update(old(self)@.index_of(x as int, y as int), cell),
            !old(self)@.in_bounds(x as int, y as int) ==> final(self)@.cells == old(self)@.cells,
    {
        proof {
            use_type_invariant(&*self);
        }
        let _len: usize = self.cells.len();
        if x < self.width && y < self.height {
            assert(y * self.width + x < self.width * self.height) by (nonlinear_arith)
                requires
                    x < self.width,
                    y < self.height,
            ;
            let idx: usize = y * self.width + x;
            self.cells[idx] = cell;
        }
    }

    /// Read the cell at column `x`, row `y`, or nothing when the position is
    /// outside the grid.
    pub fn get(&self, x: usize, y: usize) -> (r: Option<Cell>)
        ensures
            self@.in_bounds(x as int, y as int) ==> r == Some(
                self@.cell_at(x as int, y as int),
            ),
            !self@.in_bounds(x as int, y as int) ==> r == Option::<Cell>::None,
    {
        proof {
            use_type_invariant(&*self);
        }
        let _len: usize = self.cells.len();
        if x < self.width && y < self.height {
            assert(y * self.width + x < self.width * self.height) by (nonlinear_arith)
                requires
                    x < self.width,
                    y < self.height,
            ;
            let idx: usize = y * self.width + x;
            Some(self.cells[idx])
        } else {
            None
        }
    }
}

} // verus!
