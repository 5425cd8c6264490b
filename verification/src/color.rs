//! Colors and the textual image encoding.
//!
//! Colors accumulate in linear space; only at output time is each channel
//! gamma-corrected (square root), clamped, and truncated to a byte. The
//! image encoder produces the exact byte stream of the textual format:
//! a `P3` header, the dimensions, the channel maximum, then one decimal
//! triple per pixel, row-major.

use crate::fixed::{fxsqrt, fxsqrt_s, tdiv, FX_ONE};
use crate::vec3::{v3, Vec3, V3};
use vstd::prelude::*;

verus! {

/// The clamp ceiling for output channels: 0.999 in raw units, so that a
/// full channel maps to byte 255 rather than overflowing to 256.
pub const INTENSITY_MAX: i64 = 65470;

/// A color: a vector of three linear channels.
#[derive(Clone, Copy, Debug, PartialEq, Eq, Structural)]
pub struct Color(pub Vec3);

impl View for Color {
    type V = V3;

    open spec fn view(&self) -> V3 {
        self.0@
    }
}

/// Gamma correction of one linear channel: its square root, with
/// nonpositive channels mapped to zero.
pub open spec fn gamma_s(c: int) -> int {
    if c > 0 {
        fxsqrt_s(c)
    } else {
        0
    }
}

/// One output byte: the gamma-corrected channel clamped to
/// `[0, INTENSITY_MAX]`, scaled by 256 and truncated.
pub open spec fn channel_byte_s(c: int) -> int {
    let g = gamma_s(c);
    let cl = if g < 0 {
        0
    } else if g > INTENSITY_MAX as int {
        INTENSITY_MAX as int
    } else {
        g
    };
    tdiv(cl * 256, FX_ONE as int)
}

/// The decimal digits of a natural number, as bytes.
pub open spec fn dec_s(n: nat) -> Seq<u8>
    decreases n,
{
    if n < 10 {
        seq![(48 + n) as u8]
    } else {
        dec_s(n / 10) + seq![(48 + n % 10) as u8]
    }
}

/// One pixel's line: three decimal bytes separated by spaces, then a
/// newline.
pub open spec fn pixel_line_s(c: V3) -> Seq<u8> {
    dec_s(channel_byte_s(c.x) as nat) + seq![32u8] + dec_s(channel_byte_s(c.y) as nat)
        + seq![32u8] + dec_s(channel_byte_s(c.z) as nat) + seq![10u8]
}

/// The pixel lines of a sequence of colors, in order.
pub open spec fn body_s(pixels: Seq<V3>) -> Seq<u8>
    decreases pixels.len(),
{
    if pixels.len() == 0 {
        Seq::<u8>::empty()
    } else {
        pixel_line_s(pixels[0]) + body_s(pixels.drop_first())
    }
}

/// The whole stream: `P3`, the dimensions, `255`, then the pixel lines.
pub open spec fn ppm_s(pixels: Seq<V3>, width: nat, height: nat) -> Seq<u8> {
    seq![80u8, 51u8, 10u8] + dec_s(width) + seq![32u8] + dec_s(height) + seq![10u8] + dec_s(255)
        + seq![10u8] + body_s(pixels)
}

/// The views of a sequence of colors.
pub open spec fn colors_view(s: Seq<Color>) -> Seq<V3> {
    s.map_values(|c: Color| c@)
}

/// Gamma correction of one channel.
pub fn linear_to_gamma(c: i64) -> (r: i64)
    ensures
        r as int == gamma_s(c as int),
{
    if c > 0 {
        fxsqrt(c)
    } else {
        0
    }
}

/// One output byte of a channel.
pub fn channel_byte(c: i64) -> (r: u8)
    ensures
        r as int == channel_byte_s(c as int),
{
    let g = linear_to_gamma(c);
    let cl = if g < 0 {
        0
    } else if g > INTENSITY_MAX {
        INTENSITY_MAX
    } else {
        g
    };
    ((cl * 256) / FX_ONE) as u8
}

/// Append the decimal digits of `n`.
fn push_dec(out: &mut Vec<u8>, n: u32)
    ensures
        final(out)@ == old(out)@ + dec_s(n as nat),
    decreases n,
{
    if n < 10 {
        out.push(48 + n as u8);
    } else {
        push_dec(out, n / 10);
        out.push(48 + (n % 10) as u8);
        proof {
            assert(out@ =~= old(out)@ + dec_s(n as nat));
        }
    }
}

impl Color {
    pub fn new(r: i64, g: i64, b: i64) -> (c: Color)
        ensures
            c@ == v3(r as int, g as int, b as int),
    {
        Color(Vec3::new(r, g, b))
    }

    /// The whole image as the bytes of the textual format.
    pub fn output_pixels(pixels: &Vec<Color>, width: u32, height: u32) -> (r: Vec<u8>)
        ensures
            r@ == ppm_s(colors_view(pixels@), width as nat, height as nat),
    {
        let mut out: Vec<u8> = Vec::new();
        out.push(80);
        out.push(51);
        out.push(10);
        push_dec(&mut out, width);
        out.push(32);
        push_dec(&mut out, height);
        out.push(10);
        push_dec(&mut out, 255);
        out.push(10);
        proof {
            assert(ppm_s(colors_view(pixels@), width as nat, height as nat) =~= out@ + body_s(
                colors_view(pixels@),
            ));
        }
        let ghost full = ppm_s(colors_view(pixels@), width as nat, height as nat);
        let n = pixels.len();
        let mut i: usize = 0;
        proof {
            assert(colors_view(pixels@).skip(0) =~= colors_view(pixels@));
        }
        while i < n
            invariant
                n == pixels@.len(),
                i <= n,
                full == out@ + body_s(colors_view(pixels@).skip(i as int)),
            decreases n - i,
        {
            let ghost rest = colors_view(pixels@).skip(i as int);
            let ghost before = out@;
            let c = pixels[i];
            proof {
                assert(rest[0] == pixels@[i as int]@);
                assert(rest.drop_first() =~= colors_view(pixels@).skip(i as int + 1));
            }
            push_dec(&mut out, channel_byte(c.0.x) as u32);
            out.push(32);
            push_dec(&mut out, channel_byte(c.0.y) as u32);
            out.push(32);
            push_dec(&mut out, channel_byte(c.0.z) as u32);
            out.push(10);
            proof {
                assert(out@ =~= before + pixel_line_s(rest[0]));
                assert(before + body_s(rest) =~= out@ + body_s(rest.drop_first()));
            }
            i = i + 1;
        }
        proof {
            assert(colors_view(pixels@).skip(n as int) =~= Seq::<V3>::empty());
        }
        out
    }
}

} // verus!
