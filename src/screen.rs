//! The hardware-backed surface and the compositor that merges a layer
//! stack into it.

use vstd::prelude::*;
use crate::layer::{in_rect, clip_end, Writer};
use crate::bmp::{bmp_rgb888_image, decode_rgb888, ImageError};
use crate::glyph::{glyph_run, lemma_paint_outside, lemma_run_past_width, Glyph};
use crate::pixel::{
    at, cell_index, default_color, fits, in_grid, lemma_paint_step, lemma_put_at, lemma_skip_ends,
    paint_all, placed_fit, plain, put, transparent_cell, Placed, Rgb888, GRID_LEN, HEIGHT, WIDTH,
};

verus! {

/// The surface that is shown on screen: one color per grid position.
#[derive(Clone, Debug)]
pub struct PhysicalWriter {
    pub pixels: Vec<Rgb888>,
}

/// Whether layer `i` of the stack supplies the color of `(x, y)` when no
/// layer above it does: it has painted the cell, and it is the top layer or
/// an enabled one.
pub open spec fn contributes(layers: Seq<Writer>, i: int, x: int, y: int) -> bool {
    layers[i].cell(x, y).occupied && (i == layers.len() - 1 || layers[i].enable)
}

/// The color of `(x, y)` as decided by layers `0..=i`: the highest layer
/// among `1..=i` that contributes, else the background layer's stored color.
pub open spec fn pick(layers: Seq<Writer>, i: int, x: int, y: int) -> Rgb888
    decreases i,
{
    if i <= 0 {
        layers[0].cell(x, y).color
    } else if contributes(layers, i, x, y) {
        layers[i].cell(x, y).color
    } else {
        pick(layers, i - 1, x, y)
    }
}

/// The composited color of `(x, y)` over the whole stack.
pub open spec fn composite(layers: Seq<Writer>, x: int, y: int) -> Rgb888 {
    pick(layers, layers.len() - 1, x, y)
}

pub open spec fn in_region(x: int, y: int, sx: int, sy: int, ex: int, ey: int) -> bool {
    sx <= x < ex && sy <= y < ey
}

/// The color of `(x, y)` after rendering the region `[sx, ex) x [sy, ey)`
/// of `layers` over a screen where the cell had color `p`.
pub open spec fn rendered(
    p: Rgb888,
    layers: Seq<Writer>,
    x: int,
    y: int,
    sx: int,
    sy: int,
    ex: int,
    ey: int,
) -> Rgb888 {
    if layers.len() > 0 && in_region(x, y, sx, sy, ex, ey) {
        composite(layers, x, y)
    } else {
        p
    }
}

pub open spec fn stack_wf(layers: Seq<Writer>) -> bool {
    forall|k: int| 0 <= k < layers.len() ==> #[trigger] layers[k].wf()
}

/// Number of layers in the stack: the background, three middle layers and
/// the top.
pub const LAYER_COUNT: usize = 5;

/// A stack of `LAYER_COUNT` disabled layers of transparent cells.
pub fn new_layer_stack() -> (v: Vec<Writer>)
    ensures
        v@.len() == LAYER_COUNT,
        stack_wf(v@),
        forall|k: int| 0 <= k < LAYER_COUNT ==> !(#[trigger] v@[k]).enable,
        forall|k: int, x: int, y: int|
            0 <= k < LAYER_COUNT && in_grid(x, y) ==> #[trigger] v@[k].cell(x, y)
                == transparent_cell(),
{
    let mut v: Vec<Writer> = Vec::new();
    let mut i: usize = 0;
    while i < LAYER_COUNT
        invariant
            i <= LAYER_COUNT,
            v@.len() == i,
            stack_wf(v@),
            forall|k: int| 0 <= k < i ==> !(#[trigger] v@[k]).enable,
            forall|k: int, x: int, y: int|
                0 <= k < i && in_grid(x, y) ==> #[trigger] v@[k].cell(x, y) == transparent_cell(),
        decreases LAYER_COUNT - i,
    {
        v.push(Writer::new());
        i = i + 1;
    }
    v
}

/// The composited color of `(x, y)`: the layers are scanned from the top
/// down and the first one that contributes wins; the background layer's
/// stored color is the fallback.
pub fn composite_at(layers: &Vec<Writer>, x: usize, y: usize) -> (c: Rgb888)
    requires
        layers@.len() > 0,
        stack_wf(layers@),
        in_grid(x as int, y as int),
    ensures
        c == composite(layers@, x as int, y as int),
{
    let top = layers.len() - 1;
    let ci = cell_index(x, y);
    let mut i = top;
    while i > 0
        invariant
            i <= top,
            top == layers@.len() - 1,
            ci == x * WIDTH + y,
            ci < GRID_LEN,
            stack_wf(layers@),
            pick(layers@, top as int, x as int, y as int) == pick(
                layers@,
                i as int,
                x as int,
                y as int,
            ),
        decreases i,
    {
        assert(layers@[i as int].wf());
        let cell = layers[i].cells[ci];
        if cell.occupied && (i == top || layers[i].enable) {
            return cell.color;
        }
        i = i - 1;
    }
    assert(layers@[0].wf());
    layers[0].cells[ci].color
}

impl PhysicalWriter {
    pub open spec fn wf(&self) -> bool {
        self.pixels@.len() == GRID_LEN
    }

    /// Pixel `(x, y)` of the screen.
    pub open spec fn pixel(&self, x: int, y: int) -> Rgb888 {
        at(self.pixels@, x, y)
    }

    /// A black screen.
    pub fn new() -> (s: PhysicalWriter)
        ensures
            s.wf(),
            forall|x: int, y: int| in_grid(x, y) ==> #[trigger] s.pixel(x, y) == default_color(),
    {
        let mut pixels: Vec<Rgb888> = Vec::new();
        let mut i: usize = 0;
        while i < GRID_LEN
            invariant
                i <= GRID_LEN,
                pixels@.len() == i,
                forall|k: int| 0 <= k < i ==> #[trigger] pixels@[k] == default_color(),
            decreases GRID_LEN - i,
        {
            pixels.push(Rgb888::black());
            i = i + 1;
        }
        PhysicalWriter { pixels }
    }

    /// Writes `color` at `(x, y)`; the caller guarantees that the cell lies
    /// inside the grid.
    pub fn display_pixel(&mut self, x: usize, y: usize, color: Rgb888)
        requires
            old(self).wf(),
            in_grid(x as int, y as int),
        ensures
            final(self).pixels@ == put(old(self).pixels@, x as int, y as int, color),
    {
        let i = cell_index(x, y);
        self.pixels.set(i, color);
    }

    /// Writes `color` at `(x, y)`; does nothing when the cell lies outside
    /// the grid.
    pub fn display_pixel_safe(&mut self, x: usize, y: usize, color: Rgb888)
        requires
            old(self).wf(),
        ensures
            final(self).pixels@ == put(old(self).pixels@, x as int, y as int, color),
    {
        if x < HEIGHT && y < WIDTH {
            self.display_pixel(x, y, color);
        }
    }

    /// Writes each entry of `px`, in order, at `(x + row, y + col)`;
    /// entries that land outside the grid are skipped.
    pub fn display_placed(&mut self, x: usize, y: usize, px: &Vec<Placed>)
        requires
            old(self).wf(),
        ensures
            final(self).wf(),
            final(self).pixels@ == paint_all(old(self).pixels@, x as int, y as int, px@, plain()),
    {
        let ghost g0 = self.pixels@;
        proof {
            lemma_skip_ends(px@);
        }
        let mut k: usize = 0;
        while k < px.len()
            invariant
                k <= px@.len(),
                self.wf(),
                paint_all(self.pixels@, x as int, y as int, px@.skip(k as int), plain())
                    == paint_all(g0, x as int, y as int, px@, plain()),
            decreases px@.len() - k,
        {
            let p = px[k];
            proof {
                lemma_paint_step(self.pixels@, x as int, y as int, px@, k as int, plain());
            }
            if let Some(r) = x.checked_add(p.row) {
                if let Some(c) = y.checked_add(p.col) {
                    self.display_pixel_safe(r, c, p.color);
                }
            }
            k = k + 1;
        }
        proof {
            lemma_skip_ends(px@);
        }
    }

    /// Decodes a 24-bit bitmap and writes its pixels, the image's
    /// row `r`, column `c` at `(x + r, y + c)`. Nothing is written when the
    /// bytes do not decode, or when some pixel would land outside the grid.
    pub fn display_img(&mut self, x: usize, y: usize, bmp_data: &[u8]) -> (r: Result<(), ImageError>)
        requires
            old(self).wf(),
        ensures
            final(self).wf(),
            match bmp_rgb888_image(bmp_data@) {
                None => r is Err && r->Err_0 is Decode && final(self).pixels@ == old(self).pixels@,
                Some(px) => if fits(px, x as int, y as int) {
                    r is Ok && final(self).pixels@ == paint_all(
                        old(self).pixels@,
                        x as int,
                        y as int,
                        px,
                        plain(),
                    )
                } else {
                    r is Err && r->Err_0 is OutOfBounds && final(self).pixels@ == old(self).pixels@
                },
            },
    {
        match decode_rgb888(bmp_data) {
            Ok(px) => {
                if placed_fit(&px, x, y) {
                    self.display_placed(x, y, &px);
                    Ok(())
                } else {
                    Err(ImageError::OutOfBounds)
                }
            },
            Err(e) => Err(ImageError::Decode(e)),
        }
    }

    /// Writes the samples of `glyph` on the line whose top row is `x_pos`,
    /// with the pen at column `y_pos`: each sample at
    /// `(x_pos + baseline + row, y_pos + left + col)`; samples outside the
    /// grid are skipped.
    pub fn display_font(&mut self, glyph: &Glyph, x_pos: usize, y_pos: usize)
        requires
            old(self).wf(),
        ensures
            final(self).wf(),
            final(self).pixels@ == paint_all(
                old(self).pixels@,
                x_pos + glyph.baseline,
                y_pos + glyph.left,
                glyph.samples@,
                plain(),
            ),
    {
        if let Some(ox) = x_pos.checked_add(glyph.baseline) {
            if let Some(oy) = y_pos.checked_add(glyph.left) {
                self.display_placed(ox, oy, &glyph.samples);
                return;
            }
        }
        proof {
            lemma_paint_outside(
                self.pixels@,
                x_pos + glyph.baseline,
                y_pos + glyph.left,
                glyph.samples@,
                plain(),
            );
        }
    }

    /// Writes `glyphs` one after another on the line whose top row is
    /// `x_pos`, the pen starting at column `y_pos` and moving by each
    /// glyph's advance plus one; stops, without wrapping, once the pen
    /// reaches the grid's width.
    pub fn display_font_string(&mut self, glyphs: &Vec<Glyph>, x_pos: usize, y_pos: usize)
        requires
            old(self).wf(),
        ensures
            final(self).wf(),
            final(self).pixels@ == glyph_run(
                old(self).pixels@,
                glyphs@,
                x_pos as int,
                y_pos as int,
                plain(),
            ),
    {
        let ghost g0 = self.pixels@;
        proof {
            lemma_skip_ends(glyphs@);
        }
        let mut pen = y_pos;
        let mut k: usize = 0;
        while k < glyphs.len()
            invariant
                k <= glyphs@.len(),
                self.wf(),
                g0 == old(self).pixels@,
                glyph_run(self.pixels@, glyphs@.skip(k as int), x_pos as int, pen as int, plain())
                    == glyph_run(g0, glyphs@, x_pos as int, y_pos as int, plain()),
            decreases glyphs@.len() - k,
        {
            if pen >= WIDTH {
                proof {
                    lemma_run_past_width(
                        self.pixels@,
                        glyphs@.skip(k as int),
                        x_pos as int,
                        pen as int,
                        plain(),
                    );
                }
                return;
            }
            let glyph = &glyphs[k];
            proof {
                assert(glyphs@.skip(k as int).drop_first() =~= glyphs@.skip(k + 1));
            }
            self.display_font(glyph, x_pos, pen);
            if glyph.advance >= WIDTH - pen {
                proof {
                    lemma_run_past_width(
                        self.pixels@,
                        glyphs@.skip(k + 1),
                        x_pos as int,
                        pen + glyph.advance + 1,
                        plain(),
                    );
                }
                return;
            }
            pen = pen + glyph.advance + 1;
            k = k + 1;
        }
        proof {
            lemma_skip_ends(glyphs@);
        }
    }

    /// Writes `color` on every cell of the grid in the rectangle of `h` rows
    /// and `w` columns that starts at `(x, y)`; the part of the rectangle
    /// outside the grid is cut off.
    pub fn display_rect(&mut self, x: usize, y: usize, w: usize, h: usize, color: Rgb888)
        requires
            old(self).wf(),
        ensures
            final(self).wf(),
            forall|i: int, j: int|
                in_grid(i, j) ==> #[trigger] final(self).pixel(i, j) == if in_rect(
                    i,
                    j,
                    x as int,
                    y as int,
                    w as int,
                    h as int,
                ) {
                    color
                } else {
                    old(self).pixel(i, j)
                },
    {
        if x >= HEIGHT || y >= WIDTH {
            return;
        }
        let x_end = clip_end(x, h, HEIGHT);
        let y_end = clip_end(y, w, WIDTH);
        let ghost g0 = self.pixels@;
        let mut i = x;
        while i < x_end
            invariant
                x <= i <= x_end <= HEIGHT,
                y <= y_end <= WIDTH,
                x_end <= x + h,
                x_end == HEIGHT || x_end == x + h,
                y_end <= y + w,
                y_end == WIDTH || y_end == y + w,
                self.wf(),
                g0 == old(self).pixels@,
                forall|a: int, b: int|
                    in_grid(a, b) ==> #[trigger] self.pixel(a, b) == if in_rect(
                        a,
                        b,
                        x as int,
                        y as int,
                        w as int,
                        h as int,
                    ) && a < i {
                        color
                    } else {
                        at(g0, a, b)
                    },
            decreases x_end - i,
        {
            let mut j = y;
            while j < y_end
                invariant
                    x <= i < x_end <= HEIGHT,
                    y <= j <= y_end <= WIDTH,
                    x_end <= x + h,
                    y_end <= y + w,
                    y_end == WIDTH || y_end == y + w,
                    self.wf(),
                    forall|a: int, b: int|
                        in_grid(a, b) ==> #[trigger] self.pixel(a, b) == if in_rect(
                            a,
                            b,
                            x as int,
                            y as int,
                            w as int,
                            h as int,
                        ) && (a < i || (a == i && b < j)) {
                            color
                        } else {
                            at(g0, a, b)
                        },
                decreases y_end - j,
            {
                proof {
                    assert forall|a: int, b: int| in_grid(a, b) implies #[trigger] at(
                        put(self.pixels@, i as int, j as int, color),
                        a,
                        b,
                    ) == if a == i && b == j {
                        color
                    } else {
                        self.pixel(a, b)
                    } by {
                        lemma_put_at(self.pixels@, i as int, j as int, color, a, b);
                    }
                }
                self.display_pixel(i, j, color);
                j = j + 1;
            }
            i = i + 1;
        }
    }

    /// Composites the region `[sx, ex) x [sy, ey)` of the layer stack onto
    /// the screen; the region is clipped to the grid. Every cell of the
    /// region takes the color of the highest layer that contributes to it
    /// (see `contributes`), else the background layer's stored color. Cells
    /// outside the region keep their color; an empty stack changes nothing.
    pub fn render(&mut self, layers: &Vec<Writer>, sx: usize, sy: usize, ex: usize, ey: usize)
        requires
            old(self).wf(),
            stack_wf(layers@),
        ensures
            final(self).wf(),
            forall|x: int, y: int|
                in_grid(x, y) ==> #[trigger] final(self).pixel(x, y) == rendered(
                    old(self).pixel(x, y),
                    layers@,
                    x,
                    y,
                    sx as int,
                    sy as int,
                    ex as int,
                    ey as int,
                ),
    {
        if layers.len() == 0 || sx >= HEIGHT || sy >= WIDTH {
            return;
        }
        let x_end: usize = if ex < HEIGHT {
            ex
        } else {
            HEIGHT
        };
        let y_end: usize = if ey < WIDTH {
            ey
        } else {
            WIDTH
        };
        let ghost g0 = self.pixels@;
        let mut i = sx;
        while i < x_end
            invariant
                sx <= i <= HEIGHT,
                sy < WIDTH,
                x_end <= HEIGHT,
                y_end <= WIDTH,
                x_end == HEIGHT || x_end == ex,
                y_end == WIDTH || y_end == ey,
                x_end <= ex,
                y_end <= ey,
                layers@.len() > 0,
                stack_wf(layers@),
                self.wf(),
                g0 == old(self).pixels@,
                forall|a: int, b: int|
                    in_grid(a, b) ==> #[trigger] self.pixel(a, b) == if in_region(
                        a,
                        b,
                        sx as int,
                        sy as int,
                        ex as int,
                        ey as int,
                    ) && a < i {
                        composite(layers@, a, b)
                    } else {
                        at(g0, a, b)
                    },
            decreases x_end - i,
        {
            let mut j = sy;
            while j < y_end
                invariant
                    sx <= i < x_end <= HEIGHT,
                    sy <= j,
                    j <= y_end || j == sy,
                    y_end <= WIDTH,
                    x_end <= ex,
                    y_end == WIDTH || y_end == ey,
                    y_end <= ey,
                    layers@.len() > 0,
                    stack_wf(layers@),
                    self.wf(),
                    forall|a: int, b: int|
                        in_grid(a, b) ==> #[trigger] self.pixel(a, b) == if in_region(
                            a,
                            b,
                            sx as int,
                            sy as int,
                            ex as int,
                            ey as int,
                        ) && (a < i || (a == i && b < j)) {
                            composite(layers@, a, b)
                        } else {
                            at(g0, a, b)
                        },
                decreases y_end - j,
            {
                let c = composite_at(layers, i, j);
                proof {
                    assert forall|a: int, b: int| in_grid(a, b) implies #[trigger] at(
                        put(self.pixels@, i as int, j as int, c),
                        a,
                        b,
                    ) == if a == i && b == j {
                        c
                    } else {
                        self.pixel(a, b)
                    } by {
                        lemma_put_at(self.pixels@, i as int, j as int, c, a, b);
                    }
                }
                self.display_pixel(i, j, c);
                j = j + 1;
            }
            i = i + 1;
        }
    }
}

/// Rendering is idempotent: rendering an unchanged stack over the same
/// region a second time leaves every pixel as the first rendering left it.
pub proof fn lemma_render_idempotent(
    p: Rgb888,
    layers: Seq<Writer>,
    x: int,
    y: int,
    sx: int,
    sy: int,
    ex: int,
    ey: int,
)
    ensures
        rendered(rendered(p, layers, x, y, sx, sy, ex, ey), layers, x, y, sx, sy, ex, ey)
            == rendered(p, layers, x, y, sx, sy, ex, ey),
{
}

/// When no layer in `(j, i]` contributes to `(x, y)`, `pick` from `i`
/// falls through to `j`.
proof fn lemma_pick_skips(layers: Seq<Writer>, i: int, j: int, x: int, y: int)
    requires
        0 <= j <= i < layers.len(),
        forall|k: int| j < k <= i ==> !#[trigger] contributes(layers, k, x, y),
    ensures
        pick(layers, i, x, y) == pick(layers, j, x, y),
    decreases i - j,
{
    if i > j {
        lemma_pick_skips(layers, i - 1, j, x, y);
    }
}

/// Top wins: when layer `j` (not the background) is enabled and has painted
/// `(x, y)`, and no enabled layer above it has, the cell composites to
/// layer `j`'s color. The top layer is consulted whether enabled or not, so
/// it must be enabled or must not have painted the cell.
pub proof fn lemma_top_wins(layers: Seq<Writer>, j: int, x: int, y: int)
    requires
        1 <= j < layers.len(),
        layers[j].enable,
        layers[j].cell(x, y).occupied,
        forall|k: int|
            j < k < layers.len() && #[trigger] layers[k].enable ==> !layers[k].cell(x, y).occupied,
        layers[layers.len() - 1].enable || !layers[layers.len() - 1].cell(x, y).occupied,
    ensures
        composite(layers, x, y) == layers[j].cell(x, y).color,
{
    assert forall|k: int| j < k <= layers.len() - 1 implies !#[trigger] contributes(
        layers,
        k,
        x,
        y,
    ) by {
        if layers[k].enable {
        }
    }
    lemma_pick_skips(layers, layers.len() - 1, j, x, y);
}

/// Background fallback: a cell that no layer other than the background has
/// painted composites to the background layer's stored color, whatever the
/// background's own occupancy bit and enable flag.
pub proof fn lemma_background_fallback(layers: Seq<Writer>, x: int, y: int)
    requires
        layers.len() > 0,
        forall|k: int| 1 <= k < layers.len() ==> !(#[trigger] layers[k]).cell(x, y).occupied,
    ensures
        composite(layers, x, y) == layers[0].cell(x, y).color,
{
    assert forall|k: int| 0 < k <= layers.len() - 1 implies !#[trigger] contributes(
        layers,
        k,
        x,
        y,
    ) by {
        assert(!layers[k].cell(x, y).occupied);
    }
    lemma_pick_skips(layers, layers.len() - 1, 0, x, y);
}

proof fn lemma_pick_without(layers: Seq<Writer>, i: int, k: int, x: int, y: int)
    requires
        1 <= i < layers.len() - 1,
        !layers[i].enable,
        0 <= k < layers.len(),
    ensures
        pick(layers, k, x, y) == if k < i {
            pick(layers.remove(i), k, x, y)
        } else {
            pick(layers.remove(i), k - 1, x, y)
        },
    decreases k,
{
    let r = layers.remove(i);
    if k > 0 {
        lemma_pick_without(layers, i, k - 1, x, y);
        if k < i {
            assert(r[k] == layers[k]);
        } else if k > i {
            assert(r[k - 1] == layers[k]);
        }
    } else {
        assert(r[0] == layers[0]);
    }
}

/// A disabled layer contributes nothing: a stack whose layer `i` (neither
/// the background nor the top) is disabled composites every cell exactly as
/// the stack without that layer does, whatever the layer has painted.
pub proof fn lemma_disabled_layer_ignored(layers: Seq<Writer>, i: int, x: int, y: int)
    requires
        1 <= i < layers.len() - 1,
        !layers[i].enable,
    ensures
        composite(layers, x, y) == composite(layers.remove(i), x, y),
{
    lemma_pick_without(layers, i, layers.len() - 1, x, y);
}

} // verus!
