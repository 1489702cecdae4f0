//! Bitmap decoding: tinybmp parses the file, this module turns its output
//! into placed pixels and derives colors and alpha from raw samples.

use vstd::prelude::*;
use crate::pixel::{Placed, Rgb888};
use embedded_graphics::pixelcolor::RgbColor;

verus! {

#[verifier::external_type_specification]
#[verifier::external_body]
pub struct ExParseError(tinybmp::ParseError);

/// Why an image was not drawn.
#[derive(Debug)]
pub enum ImageError {
    /// The bytes are not a bitmap that the decoder accepts.
    Decode(tinybmp::ParseError),
    /// Some pixel of the image would land outside the grid.
    OutOfBounds,
}

/// A raw sample of a bitmap, at row `row` and column `col` of the image.
#[derive(Clone, Copy, Debug, PartialEq, Eq, Structural)]
pub struct RawPixel {
    pub row: usize,
    pub col: usize,
    pub value: u32,
}

/// The bit masks that select each channel of a raw sample.
#[derive(Clone, Copy, Debug, PartialEq, Eq, Structural)]
pub struct ChannelMasks {
    pub red: u32,
    pub green: u32,
    pub blue: u32,
    pub alpha: u32,
}

/// The pixels of a bitmap decoded to 24-bit color, in the decoder's order,
/// each placed at its (row, column) in the image; `None` when the bytes do
/// not decode.
pub uninterp spec fn bmp_rgb888_image(data: Seq<u8>) -> Option<Seq<Placed>>;

/// The channel masks a bitmap's header declares (if any) and its raw
/// samples, in the decoder's order; `None` when the bytes do not decode.
pub uninterp spec fn bmp_raw_image(data: Seq<u8>) -> Option<(Option<ChannelMasks>, Seq<RawPixel>)>;

/// Relies on tinybmp's `Bmp::<Rgb888>::from_slice` and `Bmp::pixels`: the
/// outcome depends on the bytes alone. A pixel at position `(x, y)` of the
/// image is placed at row `y`, column `x`.
#[verifier::external_body]
pub(crate) fn decode_rgb888(data: &[u8]) -> (r: Result<Vec<Placed>, tinybmp::ParseError>)
    ensures
        match r {
            Ok(v) => bmp_rgb888_image(data@) == Some(v@),
            Err(_) => bmp_rgb888_image(data@) is None,
        },
{
    let bmp = tinybmp::Bmp::<embedded_graphics::pixelcolor::Rgb888>::from_slice(data)?;
    Ok(bmp.pixels().map(|p| Placed {
        row: p.0.y as usize,
        col: p.0.x as usize,
        color: Rgb888 { r: p.1.r(), g: p.1.g(), b: p.1.b() },
    }).collect())
}

/// Relies on tinybmp's `RawBmp::from_slice`, `RawBmp::header` and
/// `RawBmp::pixels`: the outcome depends on the bytes alone. A sample at
/// position `(x, y)` of the image stands at row `y`, column `x`.
#[verifier::external_body]
pub(crate) fn decode_raw(data: &[u8]) -> (r: Result<
    (Option<ChannelMasks>, Vec<RawPixel>),
    tinybmp::ParseError,
>)
    ensures
        match r {
            Ok((m, v)) => bmp_raw_image(data@) == Some((m, v@)),
            Err(_) => bmp_raw_image(data@) is None,
        },
{
    let bmp = tinybmp::RawBmp::from_slice(data)?;
    let masks = bmp.header().channel_masks.map(|m| ChannelMasks {
        red: m.red,
        green: m.green,
        blue: m.blue,
        alpha: m.alpha,
    });
    let px = bmp.pixels().map(|p| RawPixel {
        row: p.position.y as usize,
        col: p.position.x as usize,
        value: p.color,
    }).collect();
    Ok((masks, px))
}

/// The position of the lowest set bit of `m` at or above bit `s`; 32 when
/// there is none.
pub open spec fn low_zero_bits(m: u32, s: nat) -> nat
    decreases 32 - s,
{
    if s >= 32 {
        32
    } else if (m >> (s as u32)) & 1 == 1 {
        s
    } else {
        low_zero_bits(m, s + 1)
    }
}

/// The number of trailing zero bits of `m`; 32 for zero.
pub open spec fn trailing_zeros(m: u32) -> nat {
    low_zero_bits(m, 0)
}

/// The value of the channel that `mask` selects in `sample`, shifted down
/// to bit 0: `(sample & mask) >> trailing_zeros(mask)`, and 0 for an empty
/// mask.
pub open spec fn channel(sample: u32, mask: u32) -> u32 {
    if trailing_zeros(mask) >= 32 {
        0
    } else {
        (sample & mask) >> (trailing_zeros(mask) as u32)
    }
}

/// The largest value the channel that `mask` selects can take; 0 for an
/// empty mask.
pub open spec fn channel_max(mask: u32) -> u32 {
    if trailing_zeros(mask) >= 32 {
        0
    } else {
        mask >> (trailing_zeros(mask) as u32)
    }
}

/// Whether the alpha of `sample`, as a fraction of the largest alpha the
/// mask allows, is above one half. A zero alpha range gives no alpha at all.
pub open spec fn is_opaque(sample: u32, alpha_mask: u32) -> bool {
    channel_max(alpha_mask) > 0 && 2 * channel(sample, alpha_mask) > channel_max(alpha_mask)
}

/// The color of `sample`: each channel truncated to 8 bits.
pub open spec fn sample_color(sample: u32, m: ChannelMasks) -> Rgb888 {
    Rgb888 {
        r: #[verifier::truncate] (channel(sample, m.red) as u8),
        g: #[verifier::truncate] (channel(sample, m.green) as u8),
        b: #[verifier::truncate] (channel(sample, m.blue) as u8),
    }
}

/// The number of trailing zero bits of `mask`, found by scanning from bit 0.
pub fn mask_shift(mask: u32) -> (s: u32)
    ensures
        s == trailing_zeros(mask),
        s <= 32,
{
    let mut s: u32 = 0;
    while s < 32 && (mask >> s) & 1 == 0
        invariant
            s <= 32,
            low_zero_bits(mask, s as nat) == trailing_zeros(mask),
        decreases 32 - s,
    {
        s = s + 1;
    }
    proof {
        if s < 32 {
            assert((mask >> s) & 1 == 1) by (bit_vector)
                requires
                    (mask >> s) & 1 != 0,
            ;
            assert(low_zero_bits(mask, s as nat) == s);
        } else {
            assert(low_zero_bits(mask, s as nat) == 32);
        }
    }
    s
}

impl ChannelMasks {
    /// The masks of 8-bit blue, green, red and alpha channels, from the low
    /// byte up, used when a bitmap declares none.
    pub fn bgra() -> (m: ChannelMasks)
        ensures
            m == default_masks(),
    {
        ChannelMasks { red: 0x00FF0000, green: 0x0000FF00, blue: 0x000000FF, alpha: 0xFF000000 }
    }
}

pub open spec fn default_masks() -> ChannelMasks {
    ChannelMasks { red: 0x00FF0000, green: 0x0000FF00, blue: 0x000000FF, alpha: 0xFF000000 }
}

/// Channel masks together with the shift of each.
#[derive(Clone, Copy, Debug)]
pub struct SampleLayout {
    pub masks: ChannelMasks,
    pub red_shift: u32,
    pub green_shift: u32,
    pub blue_shift: u32,
    pub alpha_shift: u32,
}

/// `(sample & mask) >> shift`, or 0 when the shift is 32.
fn extract(sample: u32, mask: u32, shift: u32) -> (v: u32)
    requires
        shift == trailing_zeros(mask),
        shift <= 32,
    ensures
        v == channel(sample, mask),
{
    if shift >= 32 {
        0
    } else {
        (sample & mask) >> shift
    }
}

impl SampleLayout {
    pub open spec fn wf(&self) -> bool {
        &&& self.red_shift <= 32
        &&& self.green_shift <= 32
        &&& self.blue_shift <= 32
        &&& self.alpha_shift <= 32
        &&& self.red_shift == trailing_zeros(self.masks.red)
        &&& self.green_shift == trailing_zeros(self.masks.green)
        &&& self.blue_shift == trailing_zeros(self.masks.blue)
        &&& self.alpha_shift == trailing_zeros(self.masks.alpha)
    }

    /// The layout of `masks`: each shift is its mask's number of trailing
    /// zero bits.
    pub fn new(masks: ChannelMasks) -> (l: SampleLayout)
        ensures
            l.wf(),
            l.masks == masks,
    {
        SampleLayout {
            masks,
            red_shift: mask_shift(masks.red),
            green_shift: mask_shift(masks.green),
            blue_shift: mask_shift(masks.blue),
            alpha_shift: mask_shift(masks.alpha),
        }
    }

    /// The color of `sample` when its alpha is above one half of the alpha
    /// range; `None` when it is at or below one half, and the sample is
    /// not to be painted at all.
    pub fn decode(&self, sample: u32) -> (r: Option<Rgb888>)
        requires
            self.wf(),
        ensures
            r == (if is_opaque(sample, self.masks.alpha) {
                Some(sample_color(sample, self.masks))
            } else {
                None::<Rgb888>
            }),
    {
        let a = extract(sample, self.masks.alpha, self.alpha_shift);
        let range: u32 = if self.alpha_shift >= 32 {
            0
        } else {
            self.masks.alpha >> self.alpha_shift
        };
        if range > 0 && 2 * (a as u64) > range as u64 {
            let r = extract(sample, self.masks.red, self.red_shift);
            let g = extract(sample, self.masks.green, self.green_shift);
            let b = extract(sample, self.masks.blue, self.blue_shift);
            Some(
                Rgb888 {
                    r: #[verifier::truncate] (r as u8),
                    g: #[verifier::truncate] (g as u8),
                    b: #[verifier::truncate] (b as u8),
                },
            )
        } else {
            None
        }
    }
}

} // verus!
