use vstd::prelude::*;

verus! {

/// Width of the canvas in pixels.
pub const WIDTH: usize = 512;

/// Height of the canvas in pixels.
pub const HEIGHT: usize = 512;

/// Number of cells in the canvas.
pub const SIZE: usize = WIDTH * HEIGHT;

/// Row-major position of the cell at column `x`, row `y`.
pub open spec fn cell_index(x: int, y: int) -> int {
    y * WIDTH as int + x
}

/// Whether `(x, y)` names a cell of the canvas.
pub open spec fn in_bounds(x: int, y: int) -> bool {
    0 <= x < WIDTH as int && 0 <= y < HEIGHT as int
}

/// The cells `p` after writing `v` at `(x, y)`: unchanged when the position is
/// outside the grid.
pub open spec fn painted(p: Seq<u8>, x: int, y: int, v: u8) -> Seq<u8> {
    if in_bounds(x, y) {
        p.update(cell_index(x, y), v)
    } else {
        p
    }
}

/// The value at `(x, y)` of the cells `p`, or `None` outside the grid.
pub open spec fn read(p: Seq<u8>, x: int, y: int) -> Option<u8> {
    if in_bounds(x, y) {
        Some(p[cell_index(x, y)])
    } else {
        None
    }
}

/// Distinct grid positions occupy distinct cells, all inside the grid.
pub proof fn lemma_cell_index_injective(x1: int, y1: int, x2: int, y2: int)
    requires
        in_bounds(x1, y1),
        in_bounds(x2, y2),
    ensures
        0 <= cell_index(x1, y1) < SIZE,
        cell_index(x1, y1) == cell_index(x2, y2) ==> x1 == x2 && y1 == y2,
{
    assert(0 <= y1 * 512 + x1 < 512 * 512) by (nonlinear_arith)
        requires
            0 <= x1 < 512,
            0 <= y1 < 512,
    ;
    assert(y1 * 512 + x1 == y2 * 512 + x2 ==> x1 == x2 && y1 == y2) by (nonlinear_arith)
        requires
            0 <= x1 < 512,
            0 <= y1 < 512,
            0 <= x2 < 512,
            0 <= y2 < 512,
    ;
}

/// Writing `v` inside the grid makes that position read back as `v` and leaves
/// every other position as it was.
pub proof fn lemma_set_in_bounds(p: Seq<u8>, x: int, y: int, v: u8)
    requires
        p.len() == SIZE,
        in_bounds(x, y),
    ensures
        read(painted(p, x, y, v), x, y) == Some(v),
        painted(p, x, y, v).len() == SIZE,
        forall|x2: int, y2: int|
            (x2 != x || y2 != y) ==> #[trigger] read(painted(p, x, y, v), x2, y2) == read(
                p,
                x2,
                y2,
            ),
{
    lemma_cell_index_injective(x, y, x, y);
    assert forall|x2: int, y2: int| (x2 != x || y2 != y) implies #[trigger] read(
        painted(p, x, y, v),
        x2,
        y2,
    ) == read(p, x2, y2) by {
        if in_bounds(x2, y2) {
            lemma_cell_index_injective(x, y, x2, y2);
            lemma_cell_index_injective(x2, y2, x, y);
        }
    }
}

/// Writing at a position outside the grid changes no cell.
pub proof fn lemma_set_out_of_bounds(p: Seq<u8>, x: int, y: int, v: u8)
    requires
        !in_bounds(x, y),
    ensures
        painted(p, x, y, v) == p,
        forall|x2: int, y2: int| #[trigger] read(painted(p, x, y, v), x2, y2) == read(p, x2, y2),
{
}

/// A `WIDTH` by `HEIGHT` grid of byte cells stored row by row.
/// A cell holds 0 when unset and 1 when painted.
pub struct Canvas {
    pixels: Vec<u8>,
}

impl View for Canvas {
    type V = Seq<u8>;

    closed spec fn view(&self) -> Seq<u8> {
        self.pixels@
    }
}

impl Canvas {
    /// The canvas holds exactly one cell per grid position.
    pub open spec fn wf(&self) -> bool {
        self@.len() == SIZE
    }

    /// A canvas with every cell unset.
    pub fn new() -> (r: Canvas)
        ensures
            r.wf(),
            forall|i: int| 0 <= i < SIZE ==> #[trigger] r@[i] == 0,
    {
        Canvas { pixels: vec![0u8; SIZE] }
    }

    /// Writes `value` at `(x, y)`; a position outside the grid is ignored.
    pub fn set_pixel(&mut self, x: usize, y: usize, value: u8)
        requires
            old(self).wf(),
        ensures
            final(self).wf(),
            final(self)@ == painted(old(self)@, x as int, y as int, value),
    {
        if x < WIDTH && y < HEIGHT {
            assert(y * WIDTH + x < SIZE) by (nonlinear_arith)
                requires
                    x < WIDTH,
                    y < HEIGHT,
            ;
            self.pixels.set(y * WIDTH + x, value);
        }
    }

    /// The value at `(x, y)`, or `None` for a position outside the grid.
    pub fn get_pixel(&self, x: usize, y: usize) -> (r: Option<u8>)
        requires
            self.wf(),
        ensures
            r == read(self@, x as int, y as int),
    {
        if x < WIDTH && y < HEIGHT {
            assert(y * WIDTH + x < SIZE) by (nonlinear_arith)
                requires
                    x < WIDTH,
                    y < HEIGHT,
            ;
            Some(self.pixels[y * WIDTH + x])
        } else {
            None
        }
    }

    /// A canvas holding `pixels` as its cells.
    pub(crate) fn from_cells(pixels: Vec<u8>) -> (r: Canvas)
        ensures
            r@ == pixels@,
    {
        Canvas { pixels }
    }

    /// The cells, row by row.
    pub fn pixels(&self) -> (r: &[u8])
        ensures
            r@ == self@,
    {
        self.pixels.as_slice()
    }
}

} // verus!
