//! The grid model shared by every drawing surface.
//!
//! Every surface is `HEIGHT` rows of `WIDTH` columns, indexed `(x, y)` where
//! `x` is the row and `y` the column. Cells are stored row by row in a flat
//! vector, so cell `(x, y)` lives at index `x * WIDTH + y`.

use vstd::prelude::*;

verus! {

/// Number of columns of every surface.
pub const WIDTH: usize = 800;

/// Number of rows of every surface.
pub const HEIGHT: usize = 600;

/// Number of cells of every surface.
pub const GRID_LEN: usize = 480000;

/// A 24-bit truecolor pixel.
#[derive(Clone, Copy, Debug, PartialEq, Eq, Structural)]
pub struct Rgb888 {
    pub r: u8,
    pub g: u8,
    pub b: u8,
}

impl Rgb888 {
    pub fn new(r: u8, g: u8, b: u8) -> (c: Rgb888)
        ensures
            c == (Rgb888 { r, g, b }),
    {
        Rgb888 { r, g, b }
    }

    /// Black, the color of a cell nothing has been drawn on.
    pub fn black() -> (c: Rgb888)
        ensures
            c == default_color(),
    {
        Rgb888 { r: 0, g: 0, b: 0 }
    }
}

pub open spec fn default_color() -> Rgb888 {
    Rgb888 { r: 0, g: 0, b: 0 }
}

/// One cell of a layer: a color and whether a drawing call has painted it.
#[derive(Clone, Copy, Debug, PartialEq, Eq, Structural)]
pub struct Cell {
    pub color: Rgb888,
    pub occupied: bool,
}

impl Cell {
    /// The transparent cell: default color, not occupied.
    pub fn transparent() -> (c: Cell)
        ensures
            c == transparent_cell(),
    {
        Cell { color: Rgb888::black(), occupied: false }
    }

    /// An opaque cell of the given color.
    pub fn painted(color: Rgb888) -> (c: Cell)
        ensures
            c == painted_cell(color),
    {
        Cell { color, occupied: true }
    }
}

pub open spec fn transparent_cell() -> Cell {
    Cell { color: default_color(), occupied: false }
}

pub open spec fn painted_cell(color: Rgb888) -> Cell {
    Cell { color, occupied: true }
}

/// Whether `(x, y)` names a cell of the grid.
pub open spec fn in_grid(x: int, y: int) -> bool {
    0 <= x < HEIGHT && 0 <= y < WIDTH
}

/// The flat index of cell `(x, y)`.
pub open spec fn idx(x: int, y: int) -> int {
    x * WIDTH + y
}

/// Cell `(x, y)` of a flat grid.
pub open spec fn at<T>(g: Seq<T>, x: int, y: int) -> T {
    g[idx(x, y)]
}

/// `g` with cell `(x, y)` set to `v`, or `g` itself when `(x, y)` lies
/// outside the grid.
pub open spec fn put<T>(g: Seq<T>, x: int, y: int, v: T) -> Seq<T> {
    if in_grid(x, y) {
        g.update(idx(x, y), v)
    } else {
        g
    }
}

/// Distinct cells have distinct flat indices, all of them inside the grid.
pub proof fn lemma_idx(x1: int, y1: int, x2: int, y2: int)
    requires
        in_grid(x1, y1),
        in_grid(x2, y2),
    ensures
        0 <= idx(x1, y1) < GRID_LEN,
        idx(x1, y1) == idx(x2, y2) <==> (x1 == x2 && y1 == y2),
{
}

/// Reading a cell after `put` sees the new value exactly at the cell written.
pub proof fn lemma_put_at<T>(g: Seq<T>, x: int, y: int, v: T, a: int, b: int)
    requires
        g.len() == GRID_LEN,
        in_grid(a, b),
    ensures
        put(g, x, y, v).len() == GRID_LEN,
        at(put(g, x, y, v), a, b) == if in_grid(x, y) && x == a && y == b {
            v
        } else {
            at(g, a, b)
        },
{
    if in_grid(x, y) {
        lemma_idx(x, y, a, b);
    }
}

/// The flat index of an in-grid cell, computed without overflow.
pub fn cell_index(x: usize, y: usize) -> (i: usize)
    requires
        in_grid(x as int, y as int),
    ensures
        i == idx(x as int, y as int),
        i < GRID_LEN,
{
    x * WIDTH + y
}

/// A color placed at offset `(row, col)` from some origin.
#[derive(Clone, Copy, Debug, PartialEq, Eq, Structural)]
pub struct Placed {
    pub row: usize,
    pub col: usize,
    pub color: Rgb888,
}

/// What painting a color leaves in a layer cell.
pub open spec fn opaque() -> spec_fn(Rgb888) -> Cell {
    |c: Rgb888| painted_cell(c)
}

/// What painting a color leaves on the screen.
pub open spec fn plain() -> spec_fn(Rgb888) -> Rgb888 {
    |c: Rgb888| c
}

/// `g` after painting, in order, each entry of `px` at `(x + row, y + col)`
/// through `paint`; entries that land outside the grid are skipped.
pub open spec fn paint_all<T>(
    g: Seq<T>,
    x: int,
    y: int,
    px: Seq<Placed>,
    paint: spec_fn(Rgb888) -> T,
) -> Seq<T>
    decreases px.len(),
{
    if px.len() == 0 {
        g
    } else {
        paint_all(
            put(g, x + px[0].row, y + px[0].col, paint(px[0].color)),
            x,
            y,
            px.drop_first(),
            paint,
        )
    }
}

/// Every entry of `px` lands inside the grid when placed at `(x, y)`.
pub open spec fn fits(px: Seq<Placed>, x: int, y: int) -> bool {
    forall|k: int| 0 <= k < px.len() ==> in_grid(x + (#[trigger] px[k]).row, y + px[k].col)
}

/// One step of `paint_all` over the entries of `px` from `k` on.
pub proof fn lemma_paint_step<T>(
    g: Seq<T>,
    x: int,
    y: int,
    px: Seq<Placed>,
    k: int,
    paint: spec_fn(Rgb888) -> T,
)
    requires
        0 <= k < px.len(),
    ensures
        paint_all(g, x, y, px.skip(k), paint) == paint_all(
            put(g, x + px[k].row, y + px[k].col, paint(px[k].color)),
            x,
            y,
            px.skip(k + 1),
            paint,
        ),
{
    assert(px.skip(k).drop_first() =~= px.skip(k + 1));
}

/// Skipping all of a sequence leaves nothing; skipping none leaves it whole.
pub proof fn lemma_skip_ends<T>(px: Seq<T>)
    ensures
        px.skip(px.len() as int) =~= Seq::<T>::empty(),
        px.skip(0) =~= px,
{
}

/// Whether every entry of `px` lands inside the grid when placed at `(x, y)`.
pub fn placed_fit(px: &Vec<Placed>, x: usize, y: usize) -> (b: bool)
    ensures
        b == fits(px@, x as int, y as int),
{
    let mut k: usize = 0;
    while k < px.len()
        invariant
            k <= px@.len(),
            forall|i: int| 0 <= i < k ==> in_grid(x + (#[trigger] px@[i]).row, y + px@[i].col),
        decreases px@.len() - k,
    {
        let p = px[k];
        if x >= HEIGHT || p.row >= HEIGHT - x || y >= WIDTH || p.col >= WIDTH - y {
            return false;
        }
        k = k + 1;
    }
    true
}

} // verus!
