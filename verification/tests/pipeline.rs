use pixelate::error::FilterError;
use pixelate::filters::{
    DitherFilter, Filter, GrayscaleFilter, HalftoneFilter, InvertFilter, SobelFilter,
};
use pixelate::pipeline::{Compose, Pipeline};
use pixelate::raster::Raster;

fn create_test_image() -> Raster {
    let mut data: Vec<u8> = Vec::new();
    for y in 0..5u32 {
        for x in 0..4u32 {
            data.push((x * 40) as u8);
            data.push((y * 30) as u8);
            data.push(((x + y) * 20) as u8);
        }
    }
    Raster::new(4, 5, 3, data).unwrap()
}

#[test]
fn pipeline_applies_wrapped_filter() {
    let img = create_test_image();
    let direct = InvertFilter.apply(&img);
    let piped = Pipeline::new(InvertFilter).apply(&img);
    assert_eq!(direct.data(), piped.data());
    assert_eq!(direct.dimensions(), piped.dimensions());
}

#[test]
fn pipeline_chains_two_filters() {
    // Chain invert (RGB -> RGB) then halftone (RGB -> grayscale).
    let img = create_test_image();
    let pipe = Pipeline::new(InvertFilter).then(HalftoneFilter).unwrap();
    let chained = pipe.apply(&img);
    let staged = HalftoneFilter.apply(&InvertFilter.apply(&img));
    assert_eq!(chained.data(), staged.data());
    assert_eq!(chained.channels(), 1);
}

#[test]
fn composing_mismatched_arities_is_rejected() {
    // A 3-channel-output filter cannot feed a filter expecting
    // 1-channel input.
    let r = Pipeline::new(InvertFilter).then(DitherFilter);
    assert!(matches!(r, Err(FilterError::ArityMismatch)));

    // Nor can a 1-channel output feed a filter expecting 3 channels.
    let r2 = Pipeline::new(HalftoneFilter).then(InvertFilter);
    assert!(matches!(r2, Err(FilterError::ArityMismatch)));

    let gray = GrayscaleFilter::new(2126, 7152, 722).unwrap();
    let r3 = Pipeline::new(gray).then(SobelFilter::new(10000));
    assert!(matches!(r3, Err(FilterError::ArityMismatch)));
}

#[test]
fn grayscale_then_dither_matches_halftone() {
    // HalftoneFilter is exactly the sRGB grayscale reduction composed
    // with the single-channel dither.
    let img = create_test_image();
    let gray = GrayscaleFilter::new(2126, 7152, 722).unwrap();
    let pipe = Pipeline::new(gray).then(DitherFilter).unwrap();
    let composed = pipe.apply(&img);
    let direct = HalftoneFilter.apply(&img);
    assert_eq!(composed.data(), direct.data());
}

#[test]
fn composition_is_associative() {
    // compose(compose(A, B), C) and compose(A, compose(B, C)) produce
    // bit-identical output for the same raster.
    let img = create_test_image();
    let left = Pipeline::new(InvertFilter)
        .then(InvertFilter)
        .unwrap()
        .then(HalftoneFilter)
        .unwrap();
    let right = Pipeline::new(InvertFilter)
        .then(Compose { a: InvertFilter, b: HalftoneFilter })
        .unwrap();
    let out_left = left.apply(&img);
    let out_right = right.apply(&img);
    assert_eq!(out_left.data(), out_right.data());
    assert_eq!(out_left.dimensions(), out_right.dimensions());
    assert_eq!(out_left.channels(), out_right.channels());
}

#[test]
fn grayscale_filter_rejects_heavy_weights() {
    // Weights summing to more than one are out of range.
    let r = GrayscaleFilter::new(9000, 2000, 0);
    assert!(matches!(r, Err(FilterError::InvalidParameter)));
}

#[test]
fn raster_rejects_bad_shapes() {
    assert!(matches!(Raster::new(0, 1, 1, vec![]), Err(FilterError::InvalidParameter)));
    assert!(matches!(Raster::new(2, 2, 2, vec![0; 8]), Err(FilterError::InvalidParameter)));
    assert!(matches!(Raster::new(2, 2, 1, vec![0; 3]), Err(FilterError::InvalidParameter)));
}
