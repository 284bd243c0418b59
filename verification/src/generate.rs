//! The seeded generator: a seed string deterministically yields a stream of
//! alphanumeric ASCII bytes, from which the pixel grid is built.

use vstd::prelude::*;

use crate::grid::{
    is_alnum_byte, pixels_from_chars, rgb_bytes, rgb_in_alnum_range, spec_grid, spec_rgb_bytes,
    Pixel4bit,
};

use rand::Rng;

verus! {

/// The stream of `n` alphanumeric bytes that the seeded generator draws for
/// a given seed. The generator pipeline (SipHash-based seeding of a PCG
/// generator, sampled through the alphanumeric distribution) is a pure,
/// portable function of the seed string, so its output is named rather than
/// spelled out.
pub uninterp spec fn alnum_stream(seed: Seq<char>, n: nat) -> Seq<u8>;

/// How many stream bytes one generation consumes: three per pixel.
pub open spec fn stream_len(width: u32, height: u32) -> nat {
    ((width as int) * (height as int) * 3) as nat
}

/// Relies on rand_seeder::Seeder (documented as portable and reproducible:
/// it seeds rand_pcg::Pcg64 from the SipHash of the seed string alone) and
/// on rand's Alphanumeric distribution, whose samples are drawn from the 62
/// ASCII letters and digits; Iterator::take on the infinite sample iterator
/// yields exactly `n` bytes.
#[verifier::external_body]
fn draw_alnum_chars(seed: &str, n: usize) -> (r: Vec<u8>)
    ensures
        r@ == alnum_stream(seed@, n as nat),
        r@.len() == n,
        forall|i: int| 0 <= i < r@.len() ==> is_alnum_byte(#[trigger] r@[i]),
{
    let rng: rand_pcg::Pcg64 = rand_seeder::Seeder::from(seed).make_rng();
    rng.sample_iter(&rand::distributions::Alphanumeric).take(n).collect()
}

/// Generate the pixel grid for a seed: draw `width * height * 3`
/// alphanumeric bytes from the seeded stream and quantize consecutive
/// triplets into row-major pixels.
pub fn gen_pixels_4bit_fast(seed: &str, width: u32, height: u32) -> (pixels: Vec<Pixel4bit>)
    requires
        (width as int) * (height as int) * 3 <= usize::MAX,
    ensures
        pixels@ == spec_grid(alnum_stream(seed@, stream_len(width, height)), width, height),
        forall|k: int|
            0 <= k < pixels@.len() ==> rgb_in_alnum_range(#[trigger] pixels@[k].rgb),
{
    let len: usize = (width as usize) * (height as usize) * 3;
    let chars = draw_alnum_chars(seed, len);
    let pixels = pixels_from_chars(&chars, width, height);
    proof {
        crate::grid::lemma_grid_channel_range(chars@, width, height);
    }
    pixels
}

/// Generate the encoder-ready byte buffer for a seed: the row-major pixel
/// grid, each 4-bit channel scaled by 16 to its 8-bit storage value.
pub fn gen_one_image(seed: &str, width: u32, height: u32) -> (bytes: Vec<u8>)
    requires
        (width as int) * (height as int) * 3 <= usize::MAX,
    ensures
        bytes@ == spec_rgb_bytes(
            spec_grid(alnum_stream(seed@, stream_len(width, height)), width, height),
        ),
        bytes@.len() == (width as int) * (height as int) * 3,
{
    let pixels = gen_pixels_4bit_fast(seed, width, height);
    let bytes = rgb_bytes(&pixels);
    bytes
}

/// The seed and the dimensions determine the grid completely: any two grids
/// generated from the same seed and dimensions are identical.
pub proof fn lemma_generate_deterministic(
    a: Seq<Pixel4bit>,
    b: Seq<Pixel4bit>,
    seed: Seq<char>,
    width: u32,
    height: u32,
)
    requires
        a == spec_grid(alnum_stream(seed, stream_len(width, height)), width, height),
        b == spec_grid(alnum_stream(seed, stream_len(width, height)), width, height),
    ensures
        a == b,
{
}

} // verus!
