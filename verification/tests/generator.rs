use seedpix::generate::{gen_one_image, gen_pixels_4bit_fast};
use seedpix::grid::{pixels_from_chars, rgb_bytes, Pixel4bit, Rgb4bit};

use rand::distributions::Alphanumeric;
use rand::Rng;

#[test]
fn determinism_same_seed() {
    let a = gen_pixels_4bit_fast("AAAA", 16, 16);
    let b = gen_pixels_4bit_fast("AAAA", 16, 16);
    assert_eq!(a, b);
    let x = gen_one_image("AAAA", 16, 16);
    let y = gen_one_image("AAAA", 16, 16);
    assert_eq!(x, y);
}

#[test]
fn coverage_full_grid() {
    let width: u32 = 640;
    let height: u32 = 480;
    let pixels = gen_pixels_4bit_fast("coverage", width, height);
    assert_eq!(pixels.len(), 307200);
    let mut seen = vec![false; (width * height) as usize];
    for p in &pixels {
        assert!(p.x < width);
        assert!(p.y < height);
        let cell = (p.y * width + p.x) as usize;
        assert!(!seen[cell], "duplicate position");
        seen[cell] = true;
    }
    assert!(seen.iter().all(|&s| s), "missing position");
}

#[test]
fn row_major_order() {
    let width: u32 = 5;
    let pixels = gen_pixels_4bit_fast("order", width, 3);
    for (i, p) in pixels.iter().enumerate() {
        assert_eq!(p.x, i as u32 % width);
        assert_eq!(p.y, i as u32 / width);
    }
}

#[test]
fn channel_range() {
    let pixels = gen_pixels_4bit_fast("range-check", 64, 64);
    for p in &pixels {
        assert!(6 <= p.rgb.r && p.rgb.r <= 15);
        assert!(6 <= p.rgb.g && p.rgb.g <= 15);
        assert!(6 <= p.rgb.b && p.rgb.b <= 15);
    }
    for byte in &gen_one_image("range-check", 64, 64) {
        assert!(96 <= *byte && *byte <= 240);
        assert_eq!(byte % 16, 0);
    }
}

#[test]
fn seed_sensitivity() {
    let a = gen_pixels_4bit_fast("AAAA", 32, 32);
    let b = gen_pixels_4bit_fast("AAAB", 32, 32);
    assert_ne!(a, b);
    let mut rng = rand::thread_rng();
    for _ in 0..100 {
        let s1: String = (&mut rng).sample_iter(&Alphanumeric).take(12).map(char::from).collect();
        let s2: String = (&mut rng).sample_iter(&Alphanumeric).take(12).map(char::from).collect();
        if s1 != s2 {
            assert_ne!(gen_pixels_4bit_fast(&s1, 8, 8), gen_pixels_4bit_fast(&s2, 8, 8));
        }
    }
}

#[test]
fn scale_law() {
    for (width, height) in [(1u32, 1u32), (3, 7), (40, 25), (640, 480)] {
        let pixels = gen_pixels_4bit_fast("scale", width, height);
        assert_eq!(pixels.len(), (width * height) as usize);
        let bytes = gen_one_image("scale", width, height);
        assert_eq!(bytes.len(), (width * height * 3) as usize);
    }
}

#[test]
fn grid_reads_exact_prefix() {
    // Two streams that agree on the first width*height*3 bytes give the
    // same grid, whatever follows.
    let base: Vec<u8> = (0..24).map(|i| 48 + (i % 10) as u8).collect();
    let mut longer = base.clone();
    longer.extend([122u8, 48, 57, 90]);
    let a = pixels_from_chars(&base, 4, 2);
    let b = pixels_from_chars(&longer, 4, 2);
    assert_eq!(a, b);
}

#[test]
fn empty_dimensions() {
    assert_eq!(gen_pixels_4bit_fast("empty", 0, 17).len(), 0);
    assert_eq!(gen_pixels_4bit_fast("empty", 17, 0).len(), 0);
    assert_eq!(gen_one_image("empty", 0, 0).len(), 0);
}

#[test]
fn pixels_from_chars_exact() {
    // 'A' = 65 -> 8, 'Z' = 90 -> 11, '0' = 48 -> 6, '9' = 57 -> 7,
    // 'a' = 97 -> 12, 'z' = 122 -> 15.
    let chars: Vec<u8> = vec![b'A', b'Z', b'0', b'9', b'a', b'z'];
    let pixels = pixels_from_chars(&chars, 2, 1);
    let expected = vec![
        Pixel4bit { x: 0, y: 0, rgb: Rgb4bit { r: 8, g: 11, b: 6 } },
        Pixel4bit { x: 1, y: 0, rgb: Rgb4bit { r: 7, g: 12, b: 15 } },
    ];
    assert_eq!(pixels, expected);
}

#[test]
fn rgb_bytes_exact() {
    let pixels = vec![
        Pixel4bit { x: 0, y: 0, rgb: Rgb4bit { r: 6, g: 7, b: 8 } },
        Pixel4bit { x: 1, y: 0, rgb: Rgb4bit { r: 15, g: 0, b: 12 } },
    ];
    let bytes = rgb_bytes(&pixels);
    assert_eq!(bytes, vec![96, 112, 128, 240, 0, 192]);
}

#[test]
fn end_to_end_scenario() {
    let pixels = gen_pixels_4bit_fast("test-seed-1", 4, 2);
    assert_eq!(pixels.len(), 8);
    assert_eq!((pixels[0].x, pixels[0].y), (0, 0));
    assert_eq!((pixels[7].x, pixels[7].y), (3, 1));
    for p in &pixels {
        assert!(6 <= p.rgb.r && p.rgb.r <= 15);
        assert!(6 <= p.rgb.g && p.rgb.g <= 15);
        assert!(6 <= p.rgb.b && p.rgb.b <= 15);
    }
    let channels: Vec<u8> = pixels.iter().flat_map(|p| [p.rgb.r, p.rgb.g, p.rgb.b]).collect();
    // Golden vector for the pinned seeding scheme (SipHash-seeded Pcg64,
    // alphanumeric sampling): 24 quantized channels for seed "test-seed-1".
    let golden: Vec<u8> = vec![
        14, 10, 9, 10, 12, 8, 11, 14, 12, 9, 8, 10, 9, 6, 10, 10, 9, 13, 9, 14, 6, 7, 9, 15,
    ];
    assert_eq!(channels, golden);
    let bytes = gen_one_image("test-seed-1", 4, 2);
    let scaled: Vec<u8> = channels.iter().map(|c| c * 16).collect();
    assert_eq!(bytes, scaled);
    assert_eq!(pixels, gen_pixels_4bit_fast("test-seed-1", 4, 2));
}
