use pixelate::filters::{Filter, GrayscaleFilter, HalftoneFilter, InvertFilter};
use pixelate::raster::Raster;

/// Generate a 3x3 RGB raster for testing.
fn create_test_image() -> Raster {
    // R = x * 50, G = y * 50, B = 100
    let mut data: Vec<u8> = Vec::new();
    for y in 0..3u32 {
        for x in 0..3u32 {
            data.push((x * 50) as u8);
            data.push((y * 50) as u8);
            data.push(100);
        }
    }
    Raster::new(3, 3, 3, data).unwrap()
}

#[test]
fn test_grayscale_filter() {
    let img = create_test_image();
    // Weights 0.3, 0.59, 0.11 in fixed-point ten-thousandths.
    let filter: GrayscaleFilter = GrayscaleFilter::new(3000, 5900, 1100).unwrap();
    let gray_img = filter.apply(&img);

    assert_eq!(gray_img.dimensions(), (3, 3));

    // Calculate and compare the expected grayscale value of each pixel
    for y in 0..3u32 {
        for x in 0..3u32 {
            let expected_value = (img.get(x, y, 0) as f64 * 0.3
                + img.get(x, y, 1) as f64 * 0.59
                + img.get(x, y, 2) as f64 * 0.11)
                .round() as u8;

            let val = gray_img.get(x, y, 0);
            assert_eq!(val, expected_value, "Mismatch at pixel ({}, {})", x, y);
        }
    }
}

#[test]
fn test_halftone_filter() {
    let img = create_test_image();
    let filter: HalftoneFilter = HalftoneFilter;
    let ht_img = filter.apply(&img);
    assert_eq!(ht_img.dimensions(), (3, 3));
}

#[test]
fn test_invert_filter() {
    let img = create_test_image();
    let filter: InvertFilter = InvertFilter;
    let inv_img = filter.apply(&img);
    assert_eq!(inv_img.dimensions(), (3, 3));
    // Check that each pixel is correctly inverted
    for y in 0..3u32 {
        for x in 0..3u32 {
            for i in 0..3u8 {
                assert_eq!(inv_img.get(x, y, i), 255 - img.get(x, y, i));
            }
        }
    }
}
