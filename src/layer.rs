//! Layers: software surfaces whose cells carry a color and an occupancy bit.

use vstd::prelude::*;
use crate::bmp::{
    bmp_raw_image, bmp_rgb888_image, decode_raw, decode_rgb888, default_masks, is_opaque,
    sample_color, ChannelMasks, ImageError, RawPixel, SampleLayout,
};
use crate::glyph::{glyph_run, lemma_paint_outside, lemma_run_past_width, Glyph};
use crate::pixel::{
    at, cell_index, fits, in_grid, lemma_paint_step, lemma_put_at, lemma_skip_ends, opaque,
    paint_all, painted_cell, placed_fit, put, transparent_cell, Cell, Placed, Rgb888, GRID_LEN,
    HEIGHT, WIDTH,
};

verus! {

/// A layer of the stack: one cell per grid position, and an enable flag
/// that decides whether the compositor consults it.
#[derive(Clone, Debug)]
pub struct Writer {
    pub cells: Vec<Cell>,
    pub enable: bool,
}

/// The cell at `(x, y)` after panning `g` by `(dx, dy)`: the cell that stood
/// at `(x - dx, y - dy)`, or the transparent cell when that lies outside.
pub open spec fn pan_cell(g: Seq<Cell>, x: int, y: int, dx: int, dy: int) -> Cell {
    if in_grid(x - dx, y - dy) {
        at(g, x - dx, y - dy)
    } else {
        transparent_cell()
    }
}

/// Whether `(i, j)` lies in the rectangle of height `h` and width `w` whose
/// first cell is `(x, y)`.
pub open spec fn in_rect(i: int, j: int, x: int, y: int, w: int, h: int) -> bool {
    x <= i < x + h && y <= j < y + w
}

/// Whether row (or column) `i` of a line of `n` has been visited after `k`
/// steps of a traversal that runs downward when `desc` holds, upward otherwise.
pub open spec fn visited(i: int, k: int, n: int, desc: bool) -> bool {
    if desc {
        i >= n - k
    } else {
        i < k
    }
}

/// `g` after painting, in order, each raw sample of `px` at
/// `(x + row, y + col)`: a sample whose alpha is above one half is painted
/// opaque with its color, any other is skipped, as is a sample that lands
/// outside the grid.
pub open spec fn paint_raw(g: Seq<Cell>, x: int, y: int, px: Seq<RawPixel>, m: ChannelMasks) -> Seq<
    Cell,
>
    decreases px.len(),
{
    if px.len() == 0 {
        g
    } else {
        let p = px[0];
        let g1 = if is_opaque(p.value, m.alpha) {
            put(g, x + p.row, y + p.col, painted_cell(sample_color(p.value, m)))
        } else {
            g
        };
        paint_raw(g1, x, y, px.drop_first(), m)
    }
}

/// The masks a bitmap declares, or the default ones when it declares none.
pub open spec fn masks_or_default(m: Option<ChannelMasks>) -> ChannelMasks {
    match m {
        Some(c) => c,
        None => default_masks(),
    }
}

impl Writer {
    pub open spec fn wf(&self) -> bool {
        self.cells@.len() == GRID_LEN
    }

    /// Cell `(x, y)` of the layer.
    pub open spec fn cell(&self, x: int, y: int) -> Cell {
        at(self.cells@, x, y)
    }

    /// A disabled layer of transparent cells.
    pub fn new() -> (l: Writer)
        ensures
            l.wf(),
            !l.enable,
            forall|x: int, y: int| in_grid(x, y) ==> #[trigger] l.cell(x, y) == transparent_cell(),
    {
        let mut cells: Vec<Cell> = Vec::new();
        let mut i: usize = 0;
        while i < GRID_LEN
            invariant
                i <= GRID_LEN,
                cells@.len() == i,
                forall|k: int| 0 <= k < i ==> #[trigger] cells@[k] == transparent_cell(),
            decreases GRID_LEN - i,
        {
            cells.push(Cell::transparent());
            i = i + 1;
        }
        Writer { cells, enable: false }
    }

    /// Paints `(x, y)` opaque with `color`; the caller guarantees that the
    /// cell lies inside the grid.
    pub fn display_pixel(&mut self, x: usize, y: usize, color: Rgb888)
        requires
            old(self).wf(),
            in_grid(x as int, y as int),
        ensures
            final(self).enable == old(self).enable,
            final(self).cells@ == put(old(self).cells@, x as int, y as int, painted_cell(color)),
    {
        let i = cell_index(x, y);
        self.cells.set(i, Cell::painted(color));
    }

    /// Paints `(x, y)` opaque with `color`; does nothing when the cell lies
    /// outside the grid.
    pub fn display_pixel_safe(&mut self, x: usize, y: usize, color: Rgb888)
        requires
            old(self).wf(),
        ensures
            final(self).enable == old(self).enable,
            final(self).cells@ == put(old(self).cells@, x as int, y as int, painted_cell(color)),
    {
        if x < HEIGHT && y < WIDTH {
            self.display_pixel(x, y, color);
        }
    }

    /// Paints opaque with `color` every cell of the grid in the rectangle of
    /// `h` rows and `w` columns that starts at `(x, y)`; the part of the
    /// rectangle outside the grid is cut off.
    pub fn display_rect(&mut self, x: usize, y: usize, w: usize, h: usize, color: Rgb888)
        requires
            old(self).wf(),
        ensures
            final(self).wf(),
            final(self).enable == old(self).enable,
            forall|i: int, j: int|
                in_grid(i, j) ==> #[trigger] final(self).cell(i, j) == if in_rect(
                    i,
                    j,
                    x as int,
                    y as int,
                    w as int,
                    h as int,
                ) {
                    painted_cell(color)
                } else {
                    old(self).cell(i, j)
                },
    {
        if x >= HEIGHT || y >= WIDTH {
            return;
        }
        let x_end = clip_end(x, h, HEIGHT);
        let y_end = clip_end(y, w, WIDTH);
        let ghost g0 = self.cells@;
        let mut i = x;
        while i < x_end
            invariant
                x <= i <= x_end <= HEIGHT,
                y <= y_end <= WIDTH,
                x_end <= x + h, x_end == HEIGHT || x_end == x + h,
                y_end <= y + w, y_end == WIDTH || y_end == y + w,
                self.wf(),
                self.enable == old(self).enable,
                g0 == old(self).cells@,
                forall|a: int, b: int|
                    in_grid(a, b) ==> #[trigger] self.cell(a, b) == if in_rect(
                        a,
                        b,
                        x as int,
                        y as int,
                        w as int,
                        h as int,
                    ) && a < i {
                        painted_cell(color)
                    } else {
                        at(g0, a, b)
                    },
            decreases x_end - i,
        {
            let mut j = y;
            while j < y_end
                invariant
                    x <= i < x_end <= HEIGHT,
                    y <= j <= y_end <= WIDTH,
                    x_end <= x + h, x_end == HEIGHT || x_end == x + h,
                    y_end <= y + w, y_end == WIDTH || y_end == y + w,
                    self.wf(),
                    self.enable == old(self).enable,
                    forall|a: int, b: int|
                        in_grid(a, b) ==> #[trigger] self.cell(a, b) == if in_rect(
                            a,
                            b,
                            x as int,
                            y as int,
                            w as int,
                            h as int,
                        ) && (a < i || (a == i && b < j)) {
                            painted_cell(color)
                        } else {
                            at(g0, a, b)
                        },
                decreases y_end - j,
            {
                proof {
                    assert forall|a: int, b: int| in_grid(a, b) implies #[trigger] at(
                        put(self.cells@, i as int, j as int, painted_cell(color)),
                        a,
                        b,
                    ) == if a == i && b == j {
                        painted_cell(color)
                    } else {
                        self.cell(a, b)
                    } by {
                        lemma_put_at(self.cells@, i as int, j as int, painted_cell(color), a, b);
                    }
                }
                self.display_pixel(i, j, color);
                j = j + 1;
            }
            i = i + 1;
        }
    }

    /// Sets whether the compositor consults this layer; the cells are kept.
    pub fn set_enable(&mut self, enable: bool)
        ensures
            final(self).enable == enable,
            final(self).cells == old(self).cells,
    {
        self.enable = enable;
    }

    /// Paints each entry of `px`, in order, opaque at `(x + row, y + col)`;
    /// entries that land outside the grid are skipped.
    pub fn display_placed(&mut self, x: usize, y: usize, px: &Vec<Placed>)
        requires
            old(self).wf(),
        ensures
            final(self).wf(),
            final(self).enable == old(self).enable,
            final(self).cells@ == paint_all(old(self).cells@, x as int, y as int, px@, opaque()),
    {
        let ghost g0 = self.cells@;
        proof {
            lemma_skip_ends(px@);
        }
        let mut k: usize = 0;
        while k < px.len()
            invariant
                k <= px@.len(),
                self.wf(),
                self.enable == old(self).enable,
                paint_all(self.cells@, x as int, y as int, px@.skip(k as int), opaque())
                    == paint_all(g0, x as int, y as int, px@, opaque()),
            decreases px@.len() - k,
        {
            let p = px[k];
            proof {
                lemma_paint_step(self.cells@, x as int, y as int, px@, k as int, opaque());
            }
            if let Some(r) = x.checked_add(p.row) {
                if let Some(c) = y.checked_add(p.col) {
                    self.display_pixel_safe(r, c, p.color);
                }
            }
            k = k + 1;
        }
        proof {
            lemma_skip_ends(px@);
        }
    }

    /// Paints each raw sample of `px`, in order, at `(x + row, y + col)`:
    /// a sample whose alpha under `masks` is above one half is painted
    /// opaque with its color, any other is skipped without blending.
    pub fn display_raw_pixels(&mut self, x: usize, y: usize, masks: ChannelMasks, px: &Vec<RawPixel>)
        requires
            old(self).wf(),
        ensures
            final(self).wf(),
            final(self).enable == old(self).enable,
            final(self).cells@ == paint_raw(old(self).cells@, x as int, y as int, px@, masks),
    {
        let layout = SampleLayout::new(masks);
        let ghost g0 = self.cells@;
        proof {
            lemma_skip_ends(px@);
        }
        let mut k: usize = 0;
        while k < px.len()
            invariant
                k <= px@.len(),
                layout.wf(),
                layout.masks == masks,
                self.wf(),
                self.enable == old(self).enable,
                paint_raw(self.cells@, x as int, y as int, px@.skip(k as int), masks) == paint_raw(
                    g0,
                    x as int,
                    y as int,
                    px@,
                    masks,
                ),
            decreases px@.len() - k,
        {
            let p = px[k];
            proof {
                assert(px@.skip(k as int).drop_first() =~= px@.skip(k + 1));
            }
            if let Some(color) = layout.decode(p.value) {
                if let Some(r) = x.checked_add(p.row) {
                    if let Some(c) = y.checked_add(p.col) {
                        self.display_pixel_safe(r, c, color);
                    }
                }
            }
            k = k + 1;
        }
        proof {
            lemma_skip_ends(px@);
        }
    }

    /// Decodes a 24-bit bitmap and paints its pixels opaque, the image's
    /// row `r`, column `c` at `(x + r, y + c)`. Nothing is painted when the
    /// bytes do not decode, or when some pixel would land outside the grid.
    pub fn display_img(&mut self, x: usize, y: usize, bmp_data: &[u8]) -> (r: Result<(), ImageError>)
        requires
            old(self).wf(),
        ensures
            final(self).wf(),
            final(self).enable == old(self).enable,
            match bmp_rgb888_image(bmp_data@) {
                None => r is Err && r->Err_0 is Decode && final(self).cells@ == old(self).cells@,
                Some(px) => if fits(px, x as int, y as int) {
                    r is Ok && final(self).cells@ == paint_all(
                        old(self).cells@,
                        x as int,
                        y as int,
                        px,
                        opaque(),
                    )
                } else {
                    r is Err && r->Err_0 is OutOfBounds && final(self).cells@ == old(self).cells@
                },
            },
    {
        match decode_rgb888(bmp_data) {
            Ok(px) => {
                if placed_fit(&px, x, y) {
                    self.display_placed(x, y, &px);
                    Ok(())
                } else {
                    Err(ImageError::OutOfBounds)
                }
            },
            Err(e) => Err(ImageError::Decode(e)),
        }
    }

    /// Decodes a bitmap of raw samples and paints it with
    /// `display_raw_pixels`, under the channel masks the header declares,
    /// or 8-bit blue, green, red and alpha from the low byte up when it
    /// declares none. Nothing is painted when the bytes do not decode.
    pub fn display_img_32rgba(&mut self, x: usize, y: usize, bmp_data: &[u8]) -> (r: Result<
        (),
        ImageError,
    >)
        requires
            old(self).wf(),
        ensures
            final(self).wf(),
            final(self).enable == old(self).enable,
            match bmp_raw_image(bmp_data@) {
                None => r is Err && r->Err_0 is Decode && final(self).cells@ == old(self).cells@,
                Some((m, px)) => r is Ok && final(self).cells@ == paint_raw(
                    old(self).cells@,
                    x as int,
                    y as int,
                    px,
                    masks_or_default(m),
                ),
            },
    {
        match decode_raw(bmp_data) {
            Ok((m, px)) => {
                let masks = match m {
                    Some(c) => c,
                    None => ChannelMasks::bgra(),
                };
                self.display_raw_pixels(x, y, masks, &px);
                Ok(())
            },
            Err(e) => Err(ImageError::Decode(e)),
        }
    }

    /// Paints `glyph` opaque on the line whose top row is `x_pos`, with the
    /// pen at column `y_pos`: each sample at `(x_pos + baseline + row,
    /// y_pos + left + col)`; samples outside the grid are skipped.
    pub fn display_font(&mut self, glyph: &Glyph, x_pos: usize, y_pos: usize)
        requires
            old(self).wf(),
        ensures
            final(self).wf(),
            final(self).enable == old(self).enable,
            final(self).cells@ == paint_all(
                old(self).cells@,
                x_pos + glyph.baseline,
                y_pos + glyph.left,
                glyph.samples@,
                opaque(),
            ),
    {
        if let Some(ox) = x_pos.checked_add(glyph.baseline) {
            if let Some(oy) = y_pos.checked_add(glyph.left) {
                self.display_placed(ox, oy, &glyph.samples);
                return;
            }
        }
        proof {
            lemma_paint_outside(
                self.cells@,
                x_pos + glyph.baseline,
                y_pos + glyph.left,
                glyph.samples@,
                opaque(),
            );
        }
    }

    /// Paints `glyphs` one after another on the line whose top row is
    /// `x_pos`, the pen starting at column `y_pos` and moving by each
    /// glyph's advance plus one; stops, without wrapping, once the pen
    /// reaches the grid's width.
    pub fn display_font_string(&mut self, glyphs: &Vec<Glyph>, x_pos: usize, y_pos: usize)
        requires
            old(self).wf(),
        ensures
            final(self).wf(),
            final(self).enable == old(self).enable,
            final(self).cells@ == glyph_run(
                old(self).cells@,
                glyphs@,
                x_pos as int,
                y_pos as int,
                opaque(),
            ),
    {
        let ghost g0 = self.cells@;
        proof {
            lemma_skip_ends(glyphs@);
        }
        let mut pen = y_pos;
        let mut k: usize = 0;
        while k < glyphs.len()
            invariant
                k <= glyphs@.len(),
                self.wf(),
                self.enable == old(self).enable,
                g0 == old(self).cells@,
                glyph_run(self.cells@, glyphs@.skip(k as int), x_pos as int, pen as int, opaque())
                    == glyph_run(g0, glyphs@, x_pos as int, y_pos as int, opaque()),
            decreases glyphs@.len() - k,
        {
            if pen >= WIDTH {
                proof {
                    lemma_run_past_width(
                        self.cells@,
                        glyphs@.skip(k as int),
                        x_pos as int,
                        pen as int,
                        opaque(),
                    );
                }
                return;
            }
            let glyph = &glyphs[k];
            proof {
                assert(glyphs@.skip(k as int).drop_first() =~= glyphs@.skip(k + 1));
            }
            self.display_font(glyph, x_pos, pen);
            if glyph.advance >= WIDTH - pen {
                proof {
                    lemma_run_past_width(
                        self.cells@,
                        glyphs@.skip(k + 1),
                        x_pos as int,
                        pen + glyph.advance + 1,
                        opaque(),
                    );
                }
                return;
            }
            pen = pen + glyph.advance + 1;
            k = k + 1;
        }
        proof {
            lemma_skip_ends(glyphs@);
        }
    }

    /// Shifts the whole layer by `dx` rows and `dy` columns. Each cell takes
    /// the value of the cell `(x - dx, y - dy)` when that lies inside the
    /// grid, and becomes transparent otherwise. The update is done in place:
    /// rows are visited downward when `dx > 0` and upward otherwise, and
    /// columns likewise by `dy`, so that no cell is read after it was written.
    pub fn move_to(&mut self, dx: i32, dy: i32)
        requires
            old(self).wf(),
        ensures
            final(self).wf(),
            final(self).enable == old(self).enable,
            forall|x: int, y: int|
                in_grid(x, y) ==> #[trigger] final(self).cell(x, y) == pan_cell(
                    old(self).cells@,
                    x,
                    y,
                    dx as int,
                    dy as int,
                ),
    {
        let ghost g0 = self.cells@;
        let row_desc = dx > 0;
        let col_desc = dy > 0;
        let mut k: usize = 0;
        while k < HEIGHT
            invariant
                k <= HEIGHT,
                row_desc == (dx > 0),
                col_desc == (dy > 0),
                self.wf(),
                self.enable == old(self).enable,
                g0 == old(self).cells@,
                forall|a: int, b: int|
                    in_grid(a, b) ==> #[trigger] self.cell(a, b) == if visited(
                        a,
                        k as int,
                        HEIGHT as int,
                        row_desc,
                    ) {
                        pan_cell(g0, a, b, dx as int, dy as int)
                    } else {
                        at(g0, a, b)
                    },
            decreases HEIGHT - k,
        {
            let i: usize = if row_desc {
                HEIGHT - 1 - k
            } else {
                k
            };
            let mut m: usize = 0;
            while m < WIDTH
                invariant
                    k < HEIGHT,
                    m <= WIDTH,
                    i == (if row_desc { HEIGHT - 1 - k } else { k as int }),
                    row_desc == (dx > 0),
                    col_desc == (dy > 0),
                    self.wf(),
                    self.enable == old(self).enable,
                    forall|a: int, b: int|
                        in_grid(a, b) ==> #[trigger] self.cell(a, b) == if visited(
                            a,
                            k as int,
                            HEIGHT as int,
                            row_desc,
                        ) || (a == i && visited(b, m as int, WIDTH as int, col_desc)) {
                            pan_cell(g0, a, b, dx as int, dy as int)
                        } else {
                            at(g0, a, b)
                        },
                decreases WIDTH - m,
            {
                let j: usize = if col_desc {
                    WIDTH - 1 - m
                } else {
                    m
                };
                let si: i64 = i as i64 - dx as i64;
                let sj: i64 = j as i64 - dy as i64;
                let v = if 0 <= si && si < HEIGHT as i64 && 0 <= sj && sj < WIDTH as i64 {
                    proof {
                        // The source cell has not been visited yet, or is the
                        // cell about to be written.
                        assert(!visited(si as int, k as int, HEIGHT as int, row_desc));
                        assert(!(si == i && visited(sj as int, m as int, WIDTH as int, col_desc)));
                        assert(self.cell(si as int, sj as int) == at(g0, si as int, sj as int));
                    }
                    self.cells[cell_index(si as usize, sj as usize)]
                } else {
                    Cell::transparent()
                };
                assert(v == pan_cell(g0, i as int, j as int, dx as int, dy as int));
                proof {
                    assert forall|a: int, b: int| in_grid(a, b) implies #[trigger] at(
                        put(self.cells@, i as int, j as int, v),
                        a,
                        b,
                    ) == if a == i && b == j {
                        v
                    } else {
                        self.cell(a, b)
                    } by {
                        lemma_put_at(self.cells@, i as int, j as int, v, a, b);
                    }
                }
                let ghost before = self.cells@;
                let ci = cell_index(i, j);
                self.cells.set(ci, v);
                assert(self.cells@ == put(before, i as int, j as int, v));
                assert forall|b: int|
                    0 <= b < WIDTH implies visited(b, m + 1, WIDTH as int, col_desc) == (visited(
                        b,
                        m as int,
                        WIDTH as int,
                        col_desc,
                    ) || b == j) by {}
                m = m + 1;
            }
            k = k + 1;
        }
    }
}

/// The end of the span of `len` starting at `start`, cut off at `bound`.
pub fn clip_end(start: usize, len: usize, bound: usize) -> (e: usize)
    requires
        start < bound,
    ensures
        e == (if start + len < bound { start + len } else { bound as int }),
{
    if len < bound - start {
        start + len
    } else {
        bound
    }
}

} // verus!
