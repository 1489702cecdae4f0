use cjn_gfx::bmp::{mask_shift, ChannelMasks, ImageError, RawPixel, SampleLayout};
use cjn_gfx::glyph::Glyph;
use cjn_gfx::layer::Writer;
use cjn_gfx::pixel::{Cell, Placed, Rgb888, HEIGHT, WIDTH};
use cjn_gfx::screen::{composite_at, new_layer_stack, PhysicalWriter, LAYER_COUNT};

const RED: Rgb888 = Rgb888 { r: 255, g: 0, b: 0 };
const GREEN: Rgb888 = Rgb888 { r: 0, g: 255, b: 0 };
const BLUE: Rgb888 = Rgb888 { r: 0, g: 0, b: 255 };
const BLACK: Rgb888 = Rgb888 { r: 0, g: 0, b: 0 };

fn cell(l: &Writer, x: usize, y: usize) -> Cell {
    l.cells[x * WIDTH + y]
}

fn pixel(s: &PhysicalWriter, x: usize, y: usize) -> Rgb888 {
    s.pixels[x * WIDTH + y]
}

fn painted(c: Rgb888) -> Cell {
    Cell { color: c, occupied: true }
}

fn transparent() -> Cell {
    Cell { color: BLACK, occupied: false }
}

fn push_u16(v: &mut Vec<u8>, x: u16) {
    v.extend_from_slice(&x.to_le_bytes());
}

fn push_u32(v: &mut Vec<u8>, x: u32) {
    v.extend_from_slice(&x.to_le_bytes());
}

/// A bitmap with a 40-byte info header; `rows` holds the pixel bytes of
/// each row from the top, already padded.
fn bmp_file(width: i32, height: i32, bpp: u16, compression: u32, extra: &[u8], rows: &[Vec<u8>]) -> Vec<u8> {
    let dib_len: u32 = 40 + extra.len() as u32;
    let offset: u32 = 14 + dib_len;
    let data_len: usize = rows.iter().map(|r| r.len()).sum();
    let mut v = Vec::new();
    v.extend_from_slice(b"BM");
    push_u32(&mut v, offset + data_len as u32);
    push_u16(&mut v, 0);
    push_u16(&mut v, 0);
    push_u32(&mut v, offset);
    push_u32(&mut v, dib_len);
    push_u32(&mut v, width as u32);
    push_u32(&mut v, height as u32);
    push_u16(&mut v, 1);
    push_u16(&mut v, bpp);
    push_u32(&mut v, compression);
    push_u32(&mut v, data_len as u32);
    push_u32(&mut v, 2835);
    push_u32(&mut v, 2835);
    push_u32(&mut v, 0);
    push_u32(&mut v, 0);
    v.extend_from_slice(extra);
    // Positive height: rows are stored from the bottom up.
    for r in rows.iter().rev() {
        v.extend_from_slice(r);
    }
    v
}

/// A 24-bit bitmap whose pixel rows, from the top, are given as colors.
fn bmp24(rows: &[Vec<Rgb888>]) -> Vec<u8> {
    let width = rows[0].len();
    let mut data = Vec::new();
    for r in rows {
        let mut bytes = Vec::new();
        for c in r {
            bytes.push(c.b);
            bytes.push(c.g);
            bytes.push(c.r);
        }
        while bytes.len() % 4 != 0 {
            bytes.push(0);
        }
        data.push(bytes);
    }
    bmp_file(width as i32, rows.len() as i32, 24, 0, &[], &data)
}

/// A 32-bit bitmap without channel masks whose samples, from the top, are
/// given as little-endian words.
fn bmp32(rows: &[Vec<u32>]) -> Vec<u8> {
    let width = rows[0].len();
    let data: Vec<Vec<u8>> = rows
        .iter()
        .map(|r| r.iter().flat_map(|s| s.to_le_bytes()).collect())
        .collect();
    bmp_file(width as i32, rows.len() as i32, 32, 0, &[], &data)
}

fn stack() -> Vec<Writer> {
    new_layer_stack()
}

#[test]
fn pan_example() {
    let mut l = Writer::new();
    l.display_rect(10, 10, 5, 5, RED);
    l.move_to(2, 0);
    assert_eq!(cell(&l, 12, 10), painted(RED));
    assert_eq!(cell(&l, 10, 10), transparent());
    assert_eq!(cell(&l, 16, 14), painted(RED));
    assert_eq!(cell(&l, 17, 14), transparent());
}

#[test]
fn render_example() {
    let mut layers = stack();
    layers[0].display_rect(0, 0, WIDTH, HEIGHT, BLUE);
    layers[1].display_pixel(5, 5, RED);
    layers[1].set_enable(true);
    let mut s = PhysicalWriter::new();
    s.render(&layers, 0, 0, HEIGHT, WIDTH);
    assert_eq!(pixel(&s, 5, 5), RED);
    assert_eq!(pixel(&s, 0, 0), BLUE);
    assert_eq!(pixel(&s, 599, 799), BLUE);
}

#[test]
fn new_layer_is_transparent_and_disabled() {
    let l = Writer::new();
    assert_eq!(l.cells.len(), WIDTH * HEIGHT);
    assert!(!l.enable);
    assert!(l.cells.iter().all(|c| *c == transparent()));
    let layers = stack();
    assert_eq!(layers.len(), LAYER_COUNT);
    assert_eq!(LAYER_COUNT, 5);
}

#[test]
fn display_rect_marks_exactly_the_rectangle() {
    let mut l = Writer::new();
    // x is the row (height h = 3), y is the column (width w = 2).
    l.display_rect(3, 4, 2, 3, GREEN);
    for x in 0..10 {
        for y in 0..10 {
            let inside = (3..6).contains(&x) && (4..6).contains(&y);
            let expected = if inside { painted(GREEN) } else { transparent() };
            assert_eq!(cell(&l, x, y), expected, "cell ({}, {})", x, y);
        }
    }
    let painted_count = l.cells.iter().filter(|c| c.occupied).count();
    assert_eq!(painted_count, 6);
}

#[test]
fn display_rect_is_clipped_at_the_edges() {
    let mut l = Writer::new();
    l.display_rect(598, 798, 10, 10, RED);
    assert_eq!(cell(&l, 599, 799), painted(RED));
    assert_eq!(cell(&l, 598, 798), painted(RED));
    assert_eq!(cell(&l, 597, 799), transparent());
    assert_eq!(l.cells.iter().filter(|c| c.occupied).count(), 4);
    l.display_rect(600, 0, 5, 5, RED);
    l.display_rect(0, usize::MAX, 5, 5, RED);
    l.display_rect(usize::MAX, usize::MAX, usize::MAX, usize::MAX, RED);
    assert_eq!(l.cells.iter().filter(|c| c.occupied).count(), 4);
}

#[test]
fn display_rect_overwrites_previous_cells() {
    let mut l = Writer::new();
    l.display_rect(0, 0, 4, 4, RED);
    l.display_rect(1, 1, 2, 2, BLUE);
    assert_eq!(cell(&l, 0, 0), painted(RED));
    assert_eq!(cell(&l, 1, 1), painted(BLUE));
    assert_eq!(cell(&l, 2, 2), painted(BLUE));
    assert_eq!(cell(&l, 3, 3), painted(RED));
}

#[test]
fn pixels_checked_and_unchecked() {
    let mut l = Writer::new();
    l.display_pixel(599, 799, RED);
    l.display_pixel_safe(600, 0, RED);
    l.display_pixel_safe(0, 800, RED);
    l.display_pixel_safe(1, 2, GREEN);
    assert_eq!(cell(&l, 599, 799), painted(RED));
    assert_eq!(cell(&l, 1, 2), painted(GREEN));
    assert_eq!(l.cells.iter().filter(|c| c.occupied).count(), 2);

    let mut s = PhysicalWriter::new();
    s.display_pixel(0, 0, RED);
    s.display_pixel_safe(600, 800, RED);
    s.display_pixel_safe(3, 4, GREEN);
    assert_eq!(pixel(&s, 0, 0), RED);
    assert_eq!(pixel(&s, 3, 4), GREEN);
    assert_eq!(s.pixels.iter().filter(|c| **c != BLACK).count(), 2);
}

#[test]
fn screen_rect_is_clipped() {
    let mut s = PhysicalWriter::new();
    s.display_rect(590, 790, 100, 100, BLUE);
    assert_eq!(pixel(&s, 599, 799), BLUE);
    assert_eq!(pixel(&s, 590, 790), BLUE);
    assert_eq!(pixel(&s, 589, 790), BLACK);
    assert_eq!(s.pixels.iter().filter(|c| **c == BLUE).count(), 100);
}

#[test]
fn pan_shifts_in_every_direction() {
    let mut l = Writer::new();
    l.display_pixel(100, 100, RED);
    l.display_pixel(100, 101, GREEN);
    l.display_pixel(101, 100, BLUE);

    let mut a = l.clone();
    a.move_to(-3, 5);
    assert_eq!(cell(&a, 97, 105), painted(RED));
    assert_eq!(cell(&a, 97, 106), painted(GREEN));
    assert_eq!(cell(&a, 98, 105), painted(BLUE));
    assert_eq!(a.cells.iter().filter(|c| c.occupied).count(), 3);

    let mut b = l.clone();
    b.move_to(0, -1);
    assert_eq!(cell(&b, 100, 99), painted(RED));
    assert_eq!(cell(&b, 100, 100), painted(GREEN));
    assert_eq!(cell(&b, 101, 99), painted(BLUE));
    assert_eq!(b.cells.iter().filter(|c| c.occupied).count(), 3);

    let mut c = l.clone();
    c.move_to(0, 0);
    assert_eq!(c.cells, l.cells);
}

#[test]
fn pan_drops_cells_that_leave_the_grid() {
    let mut l = Writer::new();
    l.display_rect(0, 0, WIDTH, HEIGHT, RED);
    l.move_to(1, -2);
    assert_eq!(cell(&l, 0, 0), transparent());
    assert_eq!(cell(&l, 1, 0), painted(RED));
    assert_eq!(cell(&l, 1, 797), painted(RED));
    assert_eq!(cell(&l, 1, 798), transparent());
    assert_eq!(cell(&l, 599, 799), transparent());
    assert_eq!(l.cells.iter().filter(|c| c.occupied).count(), 599 * 798);

    let mut far = Writer::new();
    far.display_rect(0, 0, WIDTH, HEIGHT, RED);
    far.move_to(i32::MIN, i32::MAX);
    assert!(far.cells.iter().all(|c| *c == transparent()));
}

#[test]
fn render_twice_gives_the_same_screen() {
    let mut layers = stack();
    layers[0].display_rect(0, 0, WIDTH, HEIGHT, BLUE);
    layers[2].display_rect(10, 10, 30, 30, RED);
    layers[2].set_enable(true);
    layers[4].display_pixel(20, 20, GREEN);
    let mut s = PhysicalWriter::new();
    s.render(&layers, 5, 5, 50, 60);
    let once = s.pixels.clone();
    s.render(&layers, 5, 5, 50, 60);
    assert_eq!(s.pixels, once);
    assert_eq!(pixel(&s, 20, 20), GREEN);
    assert_eq!(pixel(&s, 15, 15), RED);
    assert_eq!(pixel(&s, 6, 6), BLUE);
    // Outside the region nothing was written.
    assert_eq!(pixel(&s, 4, 4), BLACK);
    assert_eq!(pixel(&s, 50, 20), BLACK);
}

#[test]
fn render_touches_only_the_region() {
    let mut layers = stack();
    layers[0].display_rect(0, 0, WIDTH, HEIGHT, BLUE);
    let mut s = PhysicalWriter::new();
    s.render(&layers, 2, 3, 4, 6);
    let blue = s.pixels.iter().filter(|c| **c == BLUE).count();
    assert_eq!(blue, 2 * 3);
    assert_eq!(pixel(&s, 2, 3), BLUE);
    assert_eq!(pixel(&s, 3, 5), BLUE);
    assert_eq!(pixel(&s, 4, 5), BLACK);
    // An empty or degenerate region changes nothing.
    let mut t = PhysicalWriter::new();
    t.render(&layers, 4, 4, 4, 10);
    t.render(&layers, 600, 0, 700, 800);
    t.render(&layers, 10, 10, 5, 5);
    assert!(t.pixels.iter().all(|c| *c == BLACK));
    // A region reaching past the grid is clipped to it.
    t.render(&layers, 598, 798, 1000, 1000);
    assert_eq!(t.pixels.iter().filter(|c| **c == BLUE).count(), 4);
    // An empty stack changes nothing.
    let mut u = PhysicalWriter::new();
    u.render(&Vec::new(), 0, 0, HEIGHT, WIDTH);
    assert!(u.pixels.iter().all(|c| *c == BLACK));
}

#[test]
fn top_wins_among_enabled_layers() {
    let mut layers = stack();
    layers[0].display_rect(0, 0, WIDTH, HEIGHT, BLUE);
    layers[1].display_pixel(7, 7, RED);
    layers[2].display_pixel(7, 7, GREEN);
    layers[3].display_pixel(7, 7, BLUE);
    layers[1].set_enable(true);
    layers[2].set_enable(true);
    assert_eq!(composite_at(&layers, 7, 7), GREEN);
    let mut s = PhysicalWriter::new();
    s.render(&layers, 0, 0, HEIGHT, WIDTH);
    assert_eq!(pixel(&s, 7, 7), GREEN);
    layers[3].set_enable(true);
    assert_eq!(composite_at(&layers, 7, 7), BLUE);
}

#[test]
fn top_layer_is_consulted_even_when_disabled() {
    let mut layers = stack();
    layers[1].display_pixel(1, 1, RED);
    layers[1].set_enable(true);
    layers[4].display_pixel(1, 1, GREEN);
    assert!(!layers[4].enable);
    assert_eq!(composite_at(&layers, 1, 1), GREEN);
}

#[test]
fn disabling_a_layer_removes_its_contribution() {
    let mut layers = stack();
    layers[0].display_rect(0, 0, WIDTH, HEIGHT, BLUE);
    layers[1].display_pixel(3, 3, RED);
    layers[1].set_enable(true);
    layers[2].display_pixel(3, 3, GREEN);
    layers[2].display_pixel(4, 4, GREEN);
    layers[2].set_enable(true);
    let mut s = PhysicalWriter::new();
    s.render(&layers, 0, 0, 10, 10);
    assert_eq!(pixel(&s, 3, 3), GREEN);
    assert_eq!(pixel(&s, 4, 4), GREEN);

    let stored = layers[2].cells.clone();
    layers[2].set_enable(false);
    assert_eq!(layers[2].cells, stored);
    s.render(&layers, 0, 0, 10, 10);
    assert_eq!(pixel(&s, 3, 3), RED);
    assert_eq!(pixel(&s, 4, 4), BLUE);

    // Same result as a stack without the layer.
    let mut without = layers.clone();
    without.remove(2);
    let mut t = PhysicalWriter::new();
    t.render(&without, 0, 0, 10, 10);
    assert_eq!(t.pixels, s.pixels);
}

#[test]
fn background_supplies_unpainted_cells() {
    let mut layers = stack();
    // Background left unpainted: its stored color is the default one.
    assert_eq!(composite_at(&layers, 9, 9), BLACK);
    // The background's color is used whatever its occupancy and enable flags.
    layers[0].display_pixel(9, 9, RED);
    assert!(!layers[0].enable);
    assert_eq!(composite_at(&layers, 9, 9), RED);
    layers[0].cells[9 * WIDTH + 9] = Cell { color: GREEN, occupied: false };
    assert_eq!(composite_at(&layers, 9, 9), GREEN);
    // Disabled middle layers that painted the cell do not hide it.
    layers[2].display_pixel(9, 9, BLUE);
    assert_eq!(composite_at(&layers, 9, 9), GREEN);
}

#[test]
fn single_layer_stack_uses_its_colors() {
    let mut layers = vec![Writer::new()];
    layers[0].display_pixel(0, 1, RED);
    let mut s = PhysicalWriter::new();
    s.render(&layers, 0, 0, 1, 3);
    assert_eq!(pixel(&s, 0, 1), RED);
    assert_eq!(pixel(&s, 0, 2), BLACK);
}

#[test]
fn mask_shifts_count_trailing_zeros() {
    assert_eq!(mask_shift(0x0000_00FF), 0);
    assert_eq!(mask_shift(0x0000_FF00), 8);
    assert_eq!(mask_shift(0x00FF_0000), 16);
    assert_eq!(mask_shift(0xFF00_0000), 24);
    assert_eq!(mask_shift(0x8000_0000), 31);
    assert_eq!(mask_shift(0x0000_07E0), 5);
    assert_eq!(mask_shift(0), 32);
}

#[test]
fn alpha_threshold_decides_painting() {
    let layout = SampleLayout::new(ChannelMasks::bgra());
    assert_eq!(layout.red_shift, 16);
    assert_eq!(layout.alpha_shift, 24);
    // 128 / 255 > 0.5: painted, with the color channels extracted.
    assert_eq!(layout.decode(0x80_12_34_56), Some(Rgb888 { r: 0x12, g: 0x34, b: 0x56 }));
    // 127 / 255 <= 0.5: not painted.
    assert_eq!(layout.decode(0x7F_12_34_56), None);
    assert_eq!(layout.decode(0x00_FF_FF_FF), None);
    assert_eq!(layout.decode(0xFF_00_00_00), Some(BLACK));
    // One-bit alpha: 1 / 1 is opaque, 0 / 1 is not.
    let one_bit = SampleLayout::new(ChannelMasks { red: 0x7C00, green: 0x03E0, blue: 0x001F, alpha: 0x8000 });
    assert_eq!(one_bit.decode(0x8000 | 0x7C00), Some(Rgb888 { r: 31, g: 0, b: 0 }));
    assert_eq!(one_bit.decode(0x7FFF), None);
    // No alpha bits at all: nothing is ever painted.
    let no_alpha = SampleLayout::new(ChannelMasks { red: 0xFF0000, green: 0xFF00, blue: 0xFF, alpha: 0 });
    assert_eq!(no_alpha.decode(0xFFFF_FFFF), None);
    // A channel wider than 8 bits is truncated to its low byte.
    let wide = SampleLayout::new(ChannelMasks { red: 0x0000_0FFF, green: 0, blue: 0, alpha: 0xF000_0000 });
    assert_eq!(wide.decode(0xF000_0ABC), Some(Rgb888 { r: 0xBC, g: 0, b: 0 }));
}

#[test]
fn raw_pixels_paint_only_opaque_samples() {
    let mut l = Writer::new();
    let px = vec![
        RawPixel { row: 0, col: 0, value: 0xFF_FF_00_00 },
        RawPixel { row: 0, col: 1, value: 0x10_00_FF_00 },
        RawPixel { row: 1, col: 0, value: 0x81_00_00_FF },
        RawPixel { row: 700, col: 0, value: 0xFF_FF_FF_FF },
    ];
    l.display_raw_pixels(2, 3, ChannelMasks::bgra(), &px);
    assert_eq!(cell(&l, 2, 3), painted(RED));
    assert_eq!(cell(&l, 2, 4), transparent());
    assert_eq!(cell(&l, 3, 3), painted(BLUE));
    assert_eq!(l.cells.iter().filter(|c| c.occupied).count(), 2);
}

#[test]
fn display_img_32rgba_uses_default_masks() {
    let data = bmp32(&[vec![0xFF_FF_00_00, 0x00_00_FF_00], vec![0x90_00_00_FF, 0xC0_12_34_56]]);
    let mut l = Writer::new();
    assert!(l.display_img_32rgba(10, 20, &data).is_ok());
    assert_eq!(cell(&l, 10, 20), painted(RED));
    assert_eq!(cell(&l, 10, 21), transparent());
    assert_eq!(cell(&l, 11, 20), painted(BLUE));
    assert_eq!(cell(&l, 11, 21), painted(Rgb888 { r: 0x12, g: 0x34, b: 0x56 }));
    assert_eq!(l.cells.iter().filter(|c| c.occupied).count(), 3);
}

#[test]
fn display_img_32rgba_skips_cells_outside() {
    let data = bmp32(&[vec![0xFF_FF_00_00, 0xFF_00_FF_00]]);
    let mut l = Writer::new();
    assert!(l.display_img_32rgba(599, 799, &data).is_ok());
    assert_eq!(cell(&l, 599, 799), painted(RED));
    assert_eq!(l.cells.iter().filter(|c| c.occupied).count(), 1);
}

#[test]
fn display_img_32rgba_without_alpha_mask_paints_nothing() {
    // A V3 header declaring 8-bit red, green and blue and no alpha bits.
    let mut masks = Vec::new();
    for m in [0x00FF_0000u32, 0x0000_FF00, 0x0000_00FF, 0] {
        push_u32(&mut masks, m);
    }
    let rows = vec![0xFFFF_FFFFu32.to_le_bytes().to_vec()];
    let data = bmp_file(1, 1, 32, 3, &masks, &rows);
    let mut l = Writer::new();
    assert!(l.display_img_32rgba(0, 0, &data).is_ok());
    assert!(l.cells.iter().all(|c| *c == transparent()));
}

#[test]
fn display_img_32rgba_reports_decode_errors() {
    let mut l = Writer::new();
    let r = l.display_img_32rgba(0, 0, b"not a bitmap");
    assert!(matches!(r, Err(ImageError::Decode(_))));
    assert!(l.cells.iter().all(|c| *c == transparent()));
}

#[test]
fn display_img_places_rows_and_columns() {
    let data = bmp24(&[vec![RED, GREEN, BLUE], vec![BLUE, BLACK, RED]]);
    let mut l = Writer::new();
    assert!(l.display_img(100, 200, &data).is_ok());
    assert_eq!(cell(&l, 100, 200), painted(RED));
    assert_eq!(cell(&l, 100, 201), painted(GREEN));
    assert_eq!(cell(&l, 100, 202), painted(BLUE));
    assert_eq!(cell(&l, 101, 200), painted(BLUE));
    assert_eq!(cell(&l, 101, 201), painted(BLACK));
    assert_eq!(cell(&l, 101, 202), painted(RED));
    assert_eq!(l.cells.iter().filter(|c| c.occupied).count(), 6);

    let mut s = PhysicalWriter::new();
    assert!(s.display_img(0, 797, &data).is_ok());
    assert_eq!(pixel(&s, 0, 797), RED);
    assert_eq!(pixel(&s, 0, 799), BLUE);
    assert_eq!(pixel(&s, 1, 799), RED);
}

#[test]
fn display_img_refuses_images_that_do_not_fit() {
    let data = bmp24(&[vec![RED, GREEN], vec![BLUE, RED]]);
    let mut l = Writer::new();
    let r = l.display_img(599, 0, &data);
    assert!(matches!(r, Err(ImageError::OutOfBounds)));
    assert!(l.cells.iter().all(|c| *c == transparent()));
    let mut s = PhysicalWriter::new();
    let r = s.display_img(0, 799, &data);
    assert!(matches!(r, Err(ImageError::OutOfBounds)));
    assert!(s.pixels.iter().all(|c| *c == BLACK));
}

#[test]
fn display_img_reports_decode_errors() {
    let mut data = bmp24(&[vec![RED]]);
    data[0] = b'X';
    let mut l = Writer::new();
    let r = l.display_img(0, 0, &data);
    assert!(matches!(r, Err(ImageError::Decode(_))));
    assert!(l.cells.iter().all(|c| *c == transparent()));
    let mut s = PhysicalWriter::new();
    assert!(matches!(s.display_img(0, 0, &[]), Err(ImageError::Decode(_))));
}

#[test]
fn display_placed_skips_entries_outside() {
    let px = vec![
        Placed { row: 0, col: 0, color: RED },
        Placed { row: 0, col: usize::MAX, color: RED },
        Placed { row: 1, col: 1, color: GREEN },
    ];
    let mut l = Writer::new();
    l.display_placed(598, 798, &px);
    assert_eq!(cell(&l, 598, 798), painted(RED));
    assert_eq!(cell(&l, 599, 799), painted(GREEN));
    assert_eq!(l.cells.iter().filter(|c| c.occupied).count(), 2);
}

fn glyph(baseline: usize, left: usize, advance: usize) -> Glyph {
    Glyph {
        baseline,
        left,
        advance,
        samples: vec![Placed { row: 0, col: 0, color: RED }, Placed { row: 2, col: 1, color: RED }],
    }
}

#[test]
fn glyph_is_placed_below_the_line_and_right_of_the_pen() {
    let mut l = Writer::new();
    l.display_font(&glyph(12, 1, 8), 20, 30);
    assert_eq!(cell(&l, 32, 31), painted(RED));
    assert_eq!(cell(&l, 34, 32), painted(RED));
    assert_eq!(l.cells.iter().filter(|c| c.occupied).count(), 2);

    let mut s = PhysicalWriter::new();
    s.display_font(&glyph(12, 1, 8), 20, 30);
    assert_eq!(pixel(&s, 32, 31), RED);
    assert_eq!(pixel(&s, 34, 32), RED);
    // An origin past the grid draws nothing.
    s.display_font(&glyph(usize::MAX, 0, 8), 5, 5);
    assert_eq!(s.pixels.iter().filter(|c| **c == RED).count(), 2);
}

#[test]
fn string_advances_the_pen_and_stops_at_the_width() {
    let glyphs = vec![glyph(0, 0, 5), glyph(0, 0, 5), glyph(0, 0, 5)];
    let mut l = Writer::new();
    l.display_font_string(&glyphs, 0, 0);
    // Pens at columns 0, 6 and 12.
    for pen in [0usize, 6, 12] {
        assert_eq!(cell(&l, 0, pen), painted(RED));
        assert_eq!(cell(&l, 2, pen + 1), painted(RED));
    }
    assert_eq!(l.cells.iter().filter(|c| c.occupied).count(), 6);

    // The second glyph starts at column 796 + 4 = 800: drawing stops there.
    let mut m = Writer::new();
    m.display_font_string(&vec![glyph(0, 0, 3), glyph(0, 0, 3)], 10, 796);
    assert_eq!(cell(&m, 10, 796), painted(RED));
    assert_eq!(cell(&m, 12, 797), painted(RED));
    assert_eq!(m.cells.iter().filter(|c| c.occupied).count(), 2);

    // A huge advance ends the line without overflowing.
    let mut n = Writer::new();
    n.display_font_string(&vec![glyph(0, 0, usize::MAX), glyph(0, 0, 1)], 0, 0);
    assert_eq!(n.cells.iter().filter(|c| c.occupied).count(), 2);

    let mut s = PhysicalWriter::new();
    s.display_font_string(&glyphs, 0, 798);
    assert_eq!(pixel(&s, 0, 798), RED);
    assert_eq!(pixel(&s, 2, 799), RED);
    assert_eq!(s.pixels.iter().filter(|c| **c == RED).count(), 2);
}
