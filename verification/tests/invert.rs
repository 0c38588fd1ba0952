use pixelate::filters::invert::invert_colors;
use pixelate::raster::Raster;

fn create_test_image() -> Raster {
    let mut data: Vec<u8> = Vec::new();
    for y in 0..2u32 {
        for x in 0..2u32 {
            let r: u8 = (x * 120) as u8;
            let g: u8 = (y * 120) as u8;
            let b: u8 = 60;
            data.push(r);
            data.push(g);
            data.push(b);
        }
    }
    Raster::new(2, 2, 3, data).unwrap()
}

#[test]
fn test_invert_colors() {
    let img = create_test_image();
    let inv = invert_colors(&img);
    assert_eq!(inv.dimensions(), (2, 2));
    for y in 0..2u32 {
        for x in 0..2u32 {
            for i in 0..3u8 {
                assert_eq!(inv.get(x, y, i), 255 - img.get(x, y, i));
            }
        }
    }
}
