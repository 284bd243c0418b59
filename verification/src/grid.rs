//! The pixel grid model: how a stream of alphanumeric ASCII bytes is
//! partitioned into triplets, quantized to 4-bit RGB channels, and laid
//! out over a rectangle in row-major order.

use vstd::prelude::*;

verus! {

/// A red, green, blue triple, each channel quantized to 4 bits (0..=15).
#[derive(Clone, Copy, Debug, PartialEq, Eq, Structural)]
pub struct Rgb4bit {
    pub r: u8,
    pub g: u8,
    pub b: u8,
}

/// One grid cell: a position in `[0, width) x [0, height)` and its color.
#[derive(Clone, Copy, Debug, PartialEq, Eq, Structural)]
pub struct Pixel4bit {
    pub x: u32,
    pub y: u32,
    pub rgb: Rgb4bit,
}

/// An ASCII letter or digit: the only bytes the seeded stream may hold.
pub open spec fn is_alnum_byte(b: u8) -> bool {
    (48 <= b && b <= 57) || (65 <= b && b <= 90) || (97 <= b && b <= 122)
}

/// A channel is the byte's codepoint integer-divided by 8.
pub open spec fn channel_of_byte(b: u8) -> u8 {
    b / 8
}

/// Channel values that an alphanumeric byte can quantize to.
pub open spec fn rgb_in_alnum_range(rgb: Rgb4bit) -> bool {
    &&& 6 <= rgb.r <= 15
    &&& 6 <= rgb.g <= 15
    &&& 6 <= rgb.b <= 15
}

/// All three channels fit in 4 bits.
pub open spec fn rgb_quantized(rgb: Rgb4bit) -> bool {
    rgb.r <= 15 && rgb.g <= 15 && rgb.b <= 15
}

/// The pixel at cell index `i`: position is row-major (`x` varies fastest),
/// color comes from the `i`-th consecutive byte triplet of the stream.
pub open spec fn spec_pixel(stream: Seq<u8>, width: u32, i: int) -> Pixel4bit {
    Pixel4bit {
        x: (i % (width as int)) as u32,
        y: (i / (width as int)) as u32,
        rgb: Rgb4bit {
            r: channel_of_byte(stream[3 * i]),
            g: channel_of_byte(stream[3 * i + 1]),
            b: channel_of_byte(stream[3 * i + 2]),
        },
    }
}

/// The full grid: exactly `width * height` pixels in row-major order.
pub open spec fn spec_grid(stream: Seq<u8>, width: u32, height: u32) -> Seq<Pixel4bit> {
    Seq::new(
        ((width as int) * (height as int)) as nat,
        |i: int| spec_pixel(stream, width, i),
    )
}

/// A 4-bit channel scaled to its 8-bit storage value (steps of 16).
pub open spec fn scaled_channel(c: u8) -> u8
    recommends
        c <= 15,
{
    ((c as int) * 16) as u8
}

/// The flat byte buffer an encoder consumes: for each pixel in order, its
/// scaled r, g, b bytes.
pub open spec fn spec_rgb_bytes(pixels: Seq<Pixel4bit>) -> Seq<u8> {
    Seq::new(
        pixels.len() * 3,
        |j: int|
            (if j % 3 == 0 {
                scaled_channel(pixels[j / 3].rgb.r)
            } else if j % 3 == 1 {
                scaled_channel(pixels[j / 3].rgb.g)
            } else {
                scaled_channel(pixels[j / 3].rgb.b)
            }),
    )
}

/// Build the pixel grid from an already-drawn byte stream. Consumes exactly
/// the first `width * height * 3` bytes: triplet `i` colors cell `i`.
pub fn pixels_from_chars(chars: &Vec<u8>, width: u32, height: u32) -> (pixels: Vec<Pixel4bit>)
    requires
        chars@.len() >= (width as int) * (height as int) * 3,
    ensures
        pixels@ == spec_grid(chars@, width, height),
{
    let mut pixels: Vec<Pixel4bit> = Vec::new();
    if width == 0 {
        assert(pixels@ =~= spec_grid(chars@, width, height));
        return pixels;
    }
    let clen: usize = chars.len();
    proof {
        vstd::arithmetic::mul::lemma_mul_nonnegative(width as int, height as int);
        assert((width as int) * (height as int) * 3 <= clen <= usize::MAX);
    }
    let count: usize = (width as usize) * (height as usize);
    let mut x: u32 = 0;
    let mut y: u32 = 0;
    let mut i: usize = 0;
    while i < count
        invariant
            0 < width,
            count == (width as int) * (height as int),
            count * 3 <= usize::MAX,
            chars@.len() >= count * 3,
            i <= count,
            pixels@.len() == i,
            forall|k: int| 0 <= k < i ==> pixels@[k] == spec_pixel(chars@, width, k),
            i == (y as int) * (width as int) + (x as int),
            x < width,
            y <= height,
        decreases count - i,
    {
        let base: usize = 3 * i;
        let r: u8 = chars[base] / 8;
        let g: u8 = chars[base + 1] / 8;
        let b: u8 = chars[base + 2] / 8;
        pixels.push(Pixel4bit { x, y, rgb: Rgb4bit { r, g, b } });
        proof {
            vstd::arithmetic::div_mod::lemma_fundamental_div_mod_converse(
                i as int,
                width as int,
                y as int,
                x as int,
            );
            assert(pixels@[i as int] == spec_pixel(chars@, width, i as int));
        }
        x = x + 1;
        if x >= width {
            proof {
                vstd::arithmetic::mul::lemma_mul_is_distributive_add_other_way(
                    width as int,
                    y as int,
                    1,
                );
                assert((y as int + 1) * (width as int) == i + 1);
                vstd::arithmetic::mul::lemma_mul_is_commutative(width as int, height as int);
                vstd::arithmetic::mul::lemma_mul_inequality_converse(
                    y as int + 1,
                    height as int,
                    width as int,
                );
            }
            y = y + 1;
            x = 0;
        }
        i = i + 1;
    }
    proof {
        assert(pixels@ =~= spec_grid(chars@, width, height));
    }
    pixels
}

/// Flatten a pixel sequence into the encoder's byte order, scaling each
/// 4-bit channel by 16.
pub fn rgb_bytes(pixels: &Vec<Pixel4bit>) -> (bytes: Vec<u8>)
    requires
        forall|k: int| 0 <= k < pixels@.len() ==> rgb_quantized(#[trigger] pixels@[k].rgb),
    ensures
        bytes@ == spec_rgb_bytes(pixels@),
{
    let mut bytes: Vec<u8> = Vec::new();
    let mut i: usize = 0;
    while i < pixels.len()
        invariant
            i <= pixels@.len(),
            forall|k: int| 0 <= k < pixels@.len() ==> rgb_quantized(#[trigger] pixels@[k].rgb),
            bytes@.len() == 3 * i,
            forall|j: int| 0 <= j < bytes@.len() ==> bytes@[j] == spec_rgb_bytes(pixels@)[j],
        decreases pixels@.len() - i,
    {
        let p: Pixel4bit = pixels[i];
        bytes.push(p.rgb.r * 16);
        bytes.push(p.rgb.g * 16);
        bytes.push(p.rgb.b * 16);
        proof {
            vstd::arithmetic::div_mod::lemma_fundamental_div_mod_converse(
                3 * i as int,
                3,
                i as int,
                0,
            );
            vstd::arithmetic::div_mod::lemma_fundamental_div_mod_converse(
                3 * i as int + 1,
                3,
                i as int,
                1,
            );
            vstd::arithmetic::div_mod::lemma_fundamental_div_mod_converse(
                3 * i as int + 2,
                3,
                i as int,
                2,
            );
        }
        i = i + 1;
    }
    proof {
        assert(bytes@ =~= spec_rgb_bytes(pixels@));
    }
    bytes
}

/// When the stream holds only alphanumeric bytes, every channel of every
/// grid pixel lies in the quantized range [6, 15] (codepoints 48..=122
/// divided by 8).
pub proof fn lemma_grid_channel_range(stream: Seq<u8>, width: u32, height: u32)
    requires
        stream.len() >= (width as int) * (height as int) * 3,
        forall|i: int| 0 <= i < stream.len() ==> is_alnum_byte(#[trigger] stream[i]),
    ensures
        forall|k: int|
            0 <= k < spec_grid(stream, width, height).len() ==> rgb_in_alnum_range(
                #[trigger] spec_grid(stream, width, height)[k].rgb,
            ),
{
    let grid = spec_grid(stream, width, height);
    assert forall|k: int| 0 <= k < grid.len() implies rgb_in_alnum_range(grid[k].rgb) by {
        assert(is_alnum_byte(stream[3 * k]));
        assert(is_alnum_byte(stream[3 * k + 1]));
        assert(is_alnum_byte(stream[3 * k + 2]));
    }
}

/// The pixel's position lies inside the rectangle.
pub open spec fn pixel_in_rect(p: Pixel4bit, width: u32, height: u32) -> bool {
    p.x < width && p.y < height
}

/// Some pixel of the grid sits at position `(x, y)`.
pub open spec fn grid_has_cell(grid: Seq<Pixel4bit>, x: u32, y: u32) -> bool {
    exists|k: int| 0 <= k < grid.len() && (#[trigger] grid[k]).x == x && grid[k].y == y
}

/// The grid covers the rectangle exactly: it has `width * height` pixels,
/// every position lies inside the rectangle, no position repeats, and every
/// position of the rectangle occurs.
pub proof fn lemma_grid_coverage(stream: Seq<u8>, width: u32, height: u32)
    ensures
        spec_grid(stream, width, height).len() == (width as int) * (height as int),
        forall|k: int|
            0 <= k < spec_grid(stream, width, height).len() ==> pixel_in_rect(
                #[trigger] spec_grid(stream, width, height)[k],
                width,
                height,
            ),
        forall|k1: int, k2: int|
            0 <= k1 < k2 < spec_grid(stream, width, height).len() ==> !((#[trigger] spec_grid(
                stream,
                width,
                height,
            )[k1]).x == (#[trigger] spec_grid(stream, width, height)[k2]).x && spec_grid(
                stream,
                width,
                height,
            )[k1].y == spec_grid(stream, width, height)[k2].y),
        forall|x: u32, y: u32|
            x < width && y < height ==> #[trigger] grid_has_cell(
                spec_grid(stream, width, height),
                x,
                y,
            ),
{
    let w = width as int;
    let h = height as int;
    let grid = spec_grid(stream, width, height);
    assert forall|k: int| 0 <= k < grid.len() implies pixel_in_rect(grid[k], width, height) by {
        vstd::arithmetic::mul::lemma_mul_strictly_positive(w, h);
        vstd::arithmetic::div_mod::lemma_mod_division_less_than_divisor(k, w);
        vstd::arithmetic::div_mod::lemma_multiply_divide_lt(k, w, h);
    }
    assert forall|k1: int, k2: int| 0 <= k1 < k2 < grid.len() implies !(grid[k1].x == grid[k2].x
        && grid[k1].y == grid[k2].y) by {
        vstd::arithmetic::mul::lemma_mul_strictly_positive(w, h);
        vstd::arithmetic::div_mod::lemma_mod_division_less_than_divisor(k1, w);
        vstd::arithmetic::div_mod::lemma_mod_division_less_than_divisor(k2, w);
        vstd::arithmetic::div_mod::lemma_div_pos_is_pos(k1, w);
        vstd::arithmetic::div_mod::lemma_div_pos_is_pos(k2, w);
        vstd::arithmetic::div_mod::lemma_multiply_divide_lt(k1, w, h);
        vstd::arithmetic::div_mod::lemma_multiply_divide_lt(k2, w, h);
        vstd::arithmetic::div_mod::lemma_fundamental_div_mod(k1, w);
        vstd::arithmetic::div_mod::lemma_fundamental_div_mod(k2, w);
        if grid[k1].x == grid[k2].x && grid[k1].y == grid[k2].y {
            assert(k1 % w == k2 % w);
            assert(k1 / w == k2 / w);
            assert(k1 == w * (k1 / w) + k1 % w);
            assert(k2 == w * (k2 / w) + k2 % w);
            assert(false);
        }
    }
    assert forall|x: u32, y: u32| x < width && y < height implies grid_has_cell(grid, x, y) by {
        let k = (y as int) * w + (x as int);
        vstd::arithmetic::mul::lemma_mul_inequality(y as int, h - 1, w);
        vstd::arithmetic::mul::lemma_mul_is_distributive_sub_other_way(w, h, 1);
        assert(k < w * h);
        vstd::arithmetic::div_mod::lemma_fundamental_div_mod_converse(k, w, y as int, x as int);
        assert((grid[k]).x == x && grid[k].y == y);
    }
}

/// The grid reads exactly the first `width * height * 3` stream bytes: two
/// streams that agree on that prefix yield the same grid.
pub proof fn lemma_grid_reads_prefix(s1: Seq<u8>, s2: Seq<u8>, width: u32, height: u32)
    requires
        s1.len() >= (width as int) * (height as int) * 3,
        s2.len() >= (width as int) * (height as int) * 3,
        s1.subrange(0, (width as int) * (height as int) * 3) == s2.subrange(
            0,
            (width as int) * (height as int) * 3,
        ),
    ensures
        spec_grid(s1, width, height) == spec_grid(s2, width, height),
{
    let n = (width as int) * (height as int) * 3;
    let g1 = spec_grid(s1, width, height);
    let g2 = spec_grid(s2, width, height);
    assert forall|k: int| 0 <= k < g1.len() implies g1[k] == g2[k] by {
        assert(s1.subrange(0, n)[3 * k] == s2.subrange(0, n)[3 * k]);
        assert(s1.subrange(0, n)[3 * k + 1] == s2.subrange(0, n)[3 * k + 1]);
        assert(s1.subrange(0, n)[3 * k + 2] == s2.subrange(0, n)[3 * k + 2]);
    }
    assert(g1 =~= g2);
}

} // verus!
