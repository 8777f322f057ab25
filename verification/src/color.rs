//! Pixel colors and framebuffer packing.
use crate::rat::{q_int, q_le, q_lt, Q, Rat};
use crate::vec::Vector3;
use vstd::prelude::*;

verus! {

/// A pixel color with 8-bit red, green, blue and alpha channels.
#[derive(Debug, Clone, Copy, PartialEq, Eq, Structural)]
pub struct Color {
    pub r: u8,
    pub g: u8,
    pub b: u8,
    pub a: u8,
}

/// The byte a nonnegative unit-range radiance value maps to: values above
/// one saturate at 255, others scale by 255, rounding toward zero.
pub open spec fn spec_channel(q: Q) -> int {
    if q_lt(q_int(1), q) {
        255
    } else {
        (q.n * 255) / q.d
    }
}

impl Color {
    pub fn rgba(r: u8, g: u8, b: u8, a: u8) -> (c: Color)
        ensures
            c == (Color { r, g, b, a }),
    {
        Color { r, g, b, a }
    }

    /// An opaque color.
    pub fn rgb(r: u8, g: u8, b: u8) -> (c: Color)
        ensures
            c == (Color { r, g, b, a: 255u8 }),
    {
        Color { r, g, b, a: 255 }
    }

    /// Channelwise sum; the alpha channel is kept.
    pub fn add(&mut self, rhs: &Color)
        requires
            old(self).r + rhs.r <= 255,
            old(self).g + rhs.g <= 255,
            old(self).b + rhs.b <= 255,
        ensures
            final(self).r == old(self).r + rhs.r,
            final(self).g == old(self).g + rhs.g,
            final(self).b == old(self).b + rhs.b,
            final(self).a == old(self).a,
    {
        self.r = self.r + rhs.r;
        self.g = self.g + rhs.g;
        self.b = self.b + rhs.b;
    }

    /// One channel of a unit-range radiance value: values above one saturate
    /// at 255, others scale by 255 (rounding toward zero).
    pub fn channel_from_unit(v: &Rat) -> (c: u8)
        requires
            v.wf(),
            q_le(q_int(0), v@),
        ensures
            c == spec_channel(v@),
            q_lt(q_int(1), v@) ==> c == 255,
            !q_lt(q_int(1), v@) ==> ({
                let scaled = v@.n * 255;
                c == scaled / v@.d
            }),
    {
        let one = Rat::one();
        if one.lt(v) {
            255
        } else {
            let n = v.num() as i128;
            let d = v.den() as i128;
            let scaled: i128 = n * 255;
            proof {
                assert(0 <= scaled as int / (d as int) <= 255) by (nonlinear_arith)
                    requires
                        d as int >= 1,
                        0 <= n as int * 255 == scaled as int,
                        n as int <= d as int,
                ;
            }
            let c = scaled / d;
            c as u8
        }
    }

    /// Convert a radiance triple in the unit cube to a color, saturating
    /// channels above one.
    pub fn from_unit_rgb(v: &Vector3) -> (c: Color)
        requires
            v.wf(),
            q_le(q_int(0), v@.x),
            q_le(q_int(0), v@.y),
            q_le(q_int(0), v@.z),
        ensures
            c.a == 255,
            c.r == spec_channel(v@.x),
            c.g == spec_channel(v@.y),
            c.b == spec_channel(v@.z),
            q_lt(q_int(1), v@.x) ==> c.r == 255,
            q_lt(q_int(1), v@.y) ==> c.g == 255,
            q_lt(q_int(1), v@.z) ==> c.b == 255,
    {
        Color {
            r: Color::channel_from_unit(&v.x),
            g: Color::channel_from_unit(&v.y),
            b: Color::channel_from_unit(&v.z),
            a: 255,
        }
    }
}

/// The packed 32-bit value of one pixel: `0xAARRGGBB`.
pub open spec fn spec_pack(c: Color) -> u32 {
    (c.a as u32 * 0x1000000 + c.r as u32 * 0x10000 + c.g as u32 * 0x100 + c.b as u32) as u32
}

/// The background fill used where no fragment was produced.
pub const BACKGROUND_PIXEL: u32 = 0x64ff_ffff;

/// Pack an optional fragment color into one bitmap pixel.
pub fn pack_pixel(c: &Option<Color>) -> (r: u32)
    ensures
        r == match c {
            Some(c) => spec_pack(*c),
            None => BACKGROUND_PIXEL,
        },
{
    match c {
        Some(c) => (c.a as u32) * 0x1000000 + (c.r as u32) * 0x10000 + (c.g as u32) * 0x100 + (
        c.b as u32),
        None => BACKGROUND_PIXEL,
    }
}

/// Flip a row-major framebuffer vertically and pack each pixel for display:
/// row `y` of the framebuffer becomes row `height - 1 - y` of the bitmap.
pub fn bitmap_from_framebuffer(frame_buffer: &Vec<Option<Color>>, width: usize, height: usize) -> (r:
    Vec<u32>)
    requires
        frame_buffer@.len() == width * height,
        1 <= width,
        1 <= height,
        width * height <= 0x1000_0000,
    ensures
        r@.len() == width * height,
        forall|y: int, x: int|
            0 <= y < height && 0 <= x < width ==> r@[(height - 1 - y) * width + x] == match (
            #[trigger] frame_buffer@[y * width + x]) {
                Some(c) => spec_pack(c),
                None => BACKGROUND_PIXEL,
            },
{
    let mut r: Vec<u32> = Vec::new();
    let mut row: usize = 0;
    while row < height
        invariant
            frame_buffer@.len() == width * height,
            1 <= width,
            1 <= height,
            width * height <= 0x1000_0000,
            row <= height,
            r@.len() == row * width,
            forall|t: int|
                0 <= t < r@.len() ==> #[trigger] r@[t] == match (frame_buffer@[(height - 1 - t
                    / width as int) * width + t % width as int]) {
                    Some(c) => spec_pack(c),
                    None => BACKGROUND_PIXEL,
                },
        decreases height - row,
    {
        let src_row = height - 1 - row;
        let mut x: usize = 0;
        proof {
            lemma_bitmap_idx(row as int, width as int, height as int);
        }
        while x < width
            invariant
                frame_buffer@.len() == width * height,
                1 <= width,
                1 <= height,
                width * height <= 0x1000_0000,
                row < height,
                src_row == height - 1 - row,
                src_row * width + width <= width * height,
                row * width + width <= width * height,
                x <= width,
                r@.len() == row * width + x,
                forall|t: int|
                    0 <= t < r@.len() ==> #[trigger] r@[t] == match (frame_buffer@[(height - 1 - t
                        / width as int) * width + t % width as int]) {
                        Some(c) => spec_pack(c),
                        None => BACKGROUND_PIXEL,
                    },
            decreases width - x,
        {
            let p = pack_pixel(&frame_buffer[src_row * width + x]);
            r.push(p);
            proof {
                let t = row * width as int + x;
                assert(t / width as int == row && t % width as int == x) by (nonlinear_arith)
                    requires
                        0 <= row,
                        0 <= x < width,
                        t == row * width as int + x,
                ;
            }
            x += 1;
        }
        proof {
            assert((row + 1) * width as int == row * width as int + width as int)
                by (nonlinear_arith);
        }
        row += 1;
    }
    proof {
        assert forall|y: int, xx: int| 0 <= y < height && 0 <= xx < width implies r@[(height - 1
            - y) * width + xx] == match (#[trigger] frame_buffer@[y * width as int + xx]) {
            Some(c) => spec_pack(c),
            None => BACKGROUND_PIXEL,
        } by {
            let _trig = frame_buffer@[y * width as int + xx];
            let t = (height - 1 - y) * width as int + xx;
            assert(0 <= t < height * width && t / width as int == height - 1 - y && t
                % width as int == xx) by (nonlinear_arith)
                requires
                    0 <= y < height,
                    0 <= xx < width,
                    t == (height - 1 - y) * width as int + xx,
            ;
            assert(r@[t] == match (frame_buffer@[(height - 1 - t / width as int) * width as int + t
                % width as int]) {
                Some(c) => spec_pack(c),
                None => BACKGROUND_PIXEL,
            });
        }
    }
    r
}

/// A source row of the vertical flip stays inside the framebuffer.
proof fn lemma_bitmap_idx(row: int, width: int, height: int)
    by (nonlinear_arith)
    requires
        0 <= row < height,
        1 <= width,
    ensures
        (height - 1 - row) * width + width <= width * height,
        row * width + width <= width * height,
        (height - 1 - row) * width >= 0,
        row * width >= 0,
{
}

} // verus!
