use pixelate::filters::binarization::halftoning;
use pixelate::raster::Raster;

fn create_test_image() -> Raster {
    // Generate 4x4 grayscale gradient image
    let mut data: Vec<u8> = Vec::new();
    for y in 0..4u32 {
        for x in 0..4u32 {
            data.push(((x + y) * 32) as u8);
        }
    }
    Raster::new(4, 4, 1, data).unwrap()
}

#[test]
fn test_halftoning() {
    let img = create_test_image();
    let ht = halftoning(&img);
    assert_eq!(ht.dimensions(), (4, 4));
    // Ensure that each pixel has a value of 0 or 255
    for v in ht.data().iter() {
        assert!(*v == 0 || *v == 255);
    }
}

#[test]
fn dither_matches_threshold_table() {
    // 4x4 single-channel raster with v(x, y) = (x + y) * 32, dithered:
    // only 0/255 values, each matching the pattern-vs-threshold decision
    // for index (x mod 4, y mod 4).
    let pattern: [[u8; 4]; 4] = [[0, 8, 2, 10], [12, 4, 14, 6], [3, 11, 1, 9], [15, 7, 13, 5]];
    let img = create_test_image();
    let ht = halftoning(&img);
    for y in 0..4u32 {
        for x in 0..4u32 {
            let v = ((x + y) * 32) as u8;
            let threshold = pattern[(x % 4) as usize][(y % 4) as usize] * 16 + 8;
            let expected = if v >= threshold { 255 } else { 0 };
            let got = ht.get(x, y, 0);
            assert!(got == 0 || got == 255);
            assert_eq!(got, expected, "Mismatch at pixel ({}, {})", x, y);
        }
    }
}

#[test]
fn dither_is_deterministic() {
    // Same input raster, same pattern phase: identical output on
    // repeated calls.
    let img = create_test_image();
    let first = halftoning(&img);
    let second = halftoning(&img);
    assert_eq!(first.data(), second.data());
    assert_eq!(first.dimensions(), second.dimensions());
}

#[test]
fn dither_rgb_output_is_binary() {
    // A 3-channel raster is dithered channel by channel; every output
    // channel value is exactly 0 or 255.
    let mut data: Vec<u8> = Vec::new();
    for i in 0..(5 * 3 * 3) {
        data.push((i * 7 % 256) as u8);
    }
    let img = Raster::new(5, 3, 3, data).unwrap();
    let ht = halftoning(&img);
    assert_eq!(ht.dimensions(), (5, 3));
    assert_eq!(ht.channels(), 3);
    for v in ht.data().iter() {
        assert!(*v == 0 || *v == 255);
    }
}
