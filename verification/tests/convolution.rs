use pixelate::filters::convolution::{
    convolve_gray, magnitude_to_luma_u8_scaled, Kernel, MAX_KERNEL_SIZE,
};
use pixelate::error::FilterError;
use pixelate::raster::Raster;

fn gradient_image() -> Raster {
    let mut data: Vec<u8> = Vec::new();
    for y in 0..3u32 {
        for x in 0..3u32 {
            data.push((x + y) as u8);
        }
    }
    Raster::new(3, 3, 1, data).unwrap()
}

#[test]
fn test_convolve_identity() {
    let img = gradient_image();
    let k = Kernel::new(3, vec![0, 0, 0, 0, 1, 0, 0, 0, 0]).unwrap();
    let out = convolve_gray(&img, &k).unwrap();
    for y in 0..3u32 {
        for x in 0..3u32 {
            assert_eq!(out[(y * 3 + x) as usize], (x + y) as i64);
        }
    }
}

#[test]
fn identity_kernel_5x5() {
    // The identity property holds for any odd size: 1 at the center of a
    // 5x5 kernel, 0 elsewhere, reproduces the input exactly.
    let img = gradient_image();
    let mut wts = vec![0i32; 25];
    wts[12] = 1;
    let k = Kernel::new(5, wts).unwrap();
    let out = convolve_gray(&img, &k).unwrap();
    for y in 0..3u32 {
        for x in 0..3u32 {
            assert_eq!(out[(y * 3 + x) as usize], (x + y) as i64);
        }
    }
}

#[test]
fn convolve_even_kernel_is_invalid() {
    let img = gradient_image();
    let k = Kernel::new(2, vec![1, 1, 1, 1]).unwrap();
    let r = convolve_gray(&img, &k);
    assert!(matches!(r, Err(FilterError::InvalidKernel)));
}

#[test]
fn kernel_rejects_wrong_weight_count() {
    assert!(matches!(Kernel::new(3, vec![1, 2, 3]), Err(FilterError::InvalidParameter)));
    assert!(matches!(Kernel::new(0, vec![]), Err(FilterError::InvalidParameter)));
    let too_big = MAX_KERNEL_SIZE + 1;
    assert!(matches!(Kernel::new(too_big, vec![]), Err(FilterError::InvalidParameter)));
}

#[test]
fn convolve_zero_padding_at_borders() {
    // A 3x3 sum kernel over a uniform image: the center pixel sees all
    // nine samples, the corner only four; the rest read zero padding.
    let mut data: Vec<u8> = Vec::new();
    for _ in 0..9 {
        data.push(10);
    }
    let img = Raster::new(3, 3, 1, data).unwrap();
    let k = Kernel::new(3, vec![1; 9]).unwrap();
    let out = convolve_gray(&img, &k).unwrap();
    assert_eq!(out[4], 90);
    assert_eq!(out[0], 40);
    assert_eq!(out[1], 60);
}

#[test]
fn magnitude_rounds_and_normalizes() {
    // Magnitudes isqrt(3^2 + 4^2) = 5 and 0; the maximum 5 maps to 255.
    // At half intensity (5000/10000) the first pixel is
    // round(5 * 255 * 0.5 / 5) = round(127.5) = 128.
    let gx: Vec<i64> = vec![3, 0];
    let gy: Vec<i64> = vec![4, 0];
    let full = magnitude_to_luma_u8_scaled(&gx, &gy, 2, 1, 10000).unwrap();
    assert_eq!(full.get(0, 0, 0), 255);
    assert_eq!(full.get(1, 0, 0), 0);
    let half = magnitude_to_luma_u8_scaled(&gx, &gy, 2, 1, 5000).unwrap();
    assert_eq!(half.get(0, 0, 0), 128);
    assert_eq!(half.get(1, 0, 0), 0);
}

#[test]
fn magnitude_length_mismatch() {
    let gx: Vec<i64> = vec![1, 2];
    let gy: Vec<i64> = vec![1];
    let r = magnitude_to_luma_u8_scaled(&gx, &gy, 2, 1, 10000);
    assert!(matches!(r, Err(FilterError::LengthMismatch)));
}

#[test]
fn magnitude_uniform_gradients_give_black() {
    // A zero-gradient field yields an all-zero output regardless of the
    // intensity multiplier.
    let gx: Vec<i64> = vec![0; 6];
    let gy: Vec<i64> = vec![0; 6];
    for intensity in [0u32, 10000, 55000] {
        let out = magnitude_to_luma_u8_scaled(&gx, &gy, 3, 2, intensity).unwrap();
        for v in out.data().iter() {
            assert_eq!(*v, 0);
        }
    }
}

#[test]
fn magnitude_monotone_in_intensity() {
    // Holding the gradients fixed, raising the intensity multiplier
    // never darkens a pixel.
    let gx: Vec<i64> = vec![1, -2, 3, -4, 5, 10];
    let gy: Vec<i64> = vec![0, 1, -1, 2, -2, 10];
    let mut previous: Option<Vec<u8>> = None;
    for intensity in [0u32, 2500, 5000, 10000, 20000, 60000] {
        let out = magnitude_to_luma_u8_scaled(&gx, &gy, 6, 1, intensity).unwrap();
        let values = out.data().clone();
        if let Some(p) = previous {
            for i in 0..values.len() {
                assert!(p[i] <= values[i]);
            }
        }
        previous = Some(values);
    }
}
