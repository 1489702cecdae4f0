//! Rasterised glyphs and the pen that lays them out along a line.

use vstd::prelude::*;
use crate::pixel::{in_grid, paint_all, put, Placed, HEIGHT, WIDTH};

verus! {

/// A glyph as the font rasteriser leaves it: the samples to paint, each at
/// its (row, column) in the glyph's box, where the box's top row lies
/// `baseline` rows below the line's top and its left column `left` columns
/// right of the pen; `advance` is the pen's horizontal advance.
#[derive(Clone, Debug)]
pub struct Glyph {
    pub baseline: usize,
    pub left: usize,
    pub advance: usize,
    pub samples: Vec<Placed>,
}

/// `g` after drawing `glyphs` one after another along the line whose top row
/// is `x`, the first at pen column `pen`. After each glyph the pen moves by
/// its advance plus one column; drawing stops, without wrapping, as soon as
/// the pen reaches the grid's width.
pub open spec fn glyph_run<T>(
    g: Seq<T>,
    glyphs: Seq<Glyph>,
    x: int,
    pen: int,
    paint: spec_fn(crate::pixel::Rgb888) -> T,
) -> Seq<T>
    decreases glyphs.len(),
{
    if glyphs.len() == 0 || pen >= WIDTH {
        g
    } else {
        glyph_run(
            paint_all(g, x + glyphs[0].baseline, pen + glyphs[0].left, glyphs[0].samples@, paint),
            glyphs.drop_first(),
            x,
            pen + glyphs[0].advance + 1,
            paint,
        )
    }
}

/// Painting at an origin below or right of the grid changes nothing.
pub proof fn lemma_paint_outside<T>(
    g: Seq<T>,
    x: int,
    y: int,
    px: Seq<Placed>,
    paint: spec_fn(crate::pixel::Rgb888) -> T,
)
    requires
        x >= HEIGHT || y >= WIDTH,
    ensures
        paint_all(g, x, y, px, paint) == g,
    decreases px.len(),
{
    if px.len() > 0 {
        assert(!in_grid(x + px[0].row, y + px[0].col));
        assert(put(g, x + px[0].row, y + px[0].col, paint(px[0].color)) == g);
        lemma_paint_outside(g, x, y, px.drop_first(), paint);
    }
}

/// Drawing from a pen at or past the grid's width changes nothing.
pub proof fn lemma_run_past_width<T>(
    g: Seq<T>,
    glyphs: Seq<Glyph>,
    x: int,
    pen: int,
    paint: spec_fn(crate::pixel::Rgb888) -> T,
)
    requires
        pen >= WIDTH,
    ensures
        glyph_run(g, glyphs, x, pen, paint) == g,
{
}

} // verus!
