use pixelate::filters::sobel::sobel_edges;
use pixelate::raster::Raster;

#[test]
fn detects_vertical_edge() {
    // 6x3 image: left half dark, right half bright -> vertical edge around x=2/3
    let mut data: Vec<u8> = Vec::new();
    for _y in 0..3u32 {
        for x in 0..6u32 {
            let v: u8 = if x < 3 { 10 } else { 240 };
            data.push(v);
            data.push(v);
            data.push(v);
        }
    }
    let img = Raster::new(6, 3, 3, data).unwrap();
    let edges = sobel_edges(&img, 10000);
    assert_eq!(edges.dimensions(), (6, 3));
    // Edge strength around the middle columns should be higher than corners
    let left_val = edges.get(0, 1, 0);
    let edge_val = edges.get(3, 1, 0);
    assert!(edge_val > left_val);
}

#[test]
fn uniform_image_has_no_interior_edges() {
    // A uniform image has zero gradients away from the zero-padded
    // borders, so every interior pixel of the edge map is black,
    // whatever the intensity multiplier.
    let data: Vec<u8> = vec![77; 5 * 4 * 3];
    let img = Raster::new(5, 4, 3, data).unwrap();
    for intensity in [0u32, 10000, 50000] {
        let edges = sobel_edges(&img, intensity);
        for y in 1..3u32 {
            for x in 1..4u32 {
                assert_eq!(edges.get(x, y, 0), 0);
            }
        }
    }
}
