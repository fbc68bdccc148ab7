use stitcher::{Pixel, Raster};

#[test]
fn pixels_round_trip_row_major() {
    let pixels: Vec<Pixel> = (0..6u8).map(|i| Pixel { r: i, g: 2 * i, b: 3 * i, a: 255 - i }).collect();
    let image = Raster::from_pixels(3, 2, &pixels).unwrap();
    assert_eq!(image.width(), 3);
    assert_eq!(image.height(), 2);
    assert_eq!(image.pixel(0, 1), pixels[3]);
    assert_eq!(image.pixel(2, 0), pixels[2]);
    assert_eq!(image.row(1), &pixels[3..6].to_vec());
    assert_eq!(image.to_pixels(), pixels);
}

#[test]
fn wrong_buffer_length_is_refused() {
    let pixels = vec![Pixel { r: 1, g: 2, b: 3, a: 4 }; 5];
    assert!(Raster::from_pixels(3, 2, &pixels).is_none());
    assert!(Raster::from_pixels(2, 2, &pixels).is_none());
    assert!(Raster::from_pixels(0, 0, &Vec::new()).is_some());
}

#[test]
fn filled_raster_holds_one_colour() {
    let p = Pixel { r: 9, g: 8, b: 7, a: 6 };
    let image = Raster::filled(3, 4, p);
    assert_eq!(image.dimensions(), (3, 4));
    assert_eq!(image.to_pixels(), vec![p; 12]);
}
