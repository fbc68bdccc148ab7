use stitcher::grid::{check_dimensions, check_size, is_same_size, size_of_first};
use stitcher::{compose, stitch_images, validate_uniform_size, Pixel, Raster, StitcherError};

const RED: Pixel = Pixel { r: 255, g: 0, b: 0, a: 255 };
const GREEN: Pixel = Pixel { r: 0, g: 255, b: 0, a: 255 };
const BLUE: Pixel = Pixel { r: 0, g: 0, b: 255, a: 255 };
const YELLOW: Pixel = Pixel { r: 255, g: 255, b: 0, a: 255 };

fn solid(width: u32, height: u32, p: Pixel) -> Raster {
    Raster::filled(width, height, p)
}

/// A raster whose pixel (x, y) encodes `tag`, x and y, so that every pixel differs.
fn tagged(width: u32, height: u32, tag: u8) -> Raster {
    let mut pixels = Vec::new();
    for y in 0..height {
        for x in 0..width {
            pixels.push(Pixel { r: tag, g: x as u8, b: y as u8, a: 255 });
        }
    }
    Raster::from_pixels(width, height, &pixels).unwrap()
}

#[test]
fn placement_of_four_solid_cells() {
    let rasters = vec![solid(2, 2, RED), solid(2, 2, GREEN), solid(2, 2, BLUE), solid(2, 2, YELLOW)];
    let canvas = compose(&rasters, 2, 2).unwrap();
    assert_eq!(canvas.dimensions(), (4, 4));
    for y in 0..4 {
        for x in 0..4 {
            let expected = match (x < 2, y < 2) {
                (true, true) => RED,
                (false, true) => GREEN,
                (true, false) => BLUE,
                (false, false) => YELLOW,
            };
            assert_eq!(canvas.pixel(x, y), expected, "pixel ({}, {})", x, y);
        }
    }
}

#[test]
fn stitch_images_matches_two_by_two_compose() {
    let general = compose(&vec![tagged(3, 2, 1), tagged(3, 2, 2), tagged(3, 2, 3), tagged(3, 2, 4)], 2, 2).unwrap();
    let fixed = stitch_images(tagged(3, 2, 1), tagged(3, 2, 2), tagged(3, 2, 3), tagged(3, 2, 4)).unwrap();
    assert_eq!(fixed.dimensions(), (6, 4));
    assert_eq!(fixed.to_pixels(), general.to_pixels());
    assert_eq!(fixed.pixel(4, 3), Pixel { r: 4, g: 1, b: 1, a: 255 });
}

#[test]
fn stitch_images_rejects_mismatched_corner() {
    let r = stitch_images(solid(2, 2, RED), solid(2, 2, GREEN), solid(2, 3, BLUE), solid(2, 2, YELLOW));
    assert_eq!(r.unwrap_err(), StitcherError::SizeMismatch);
}

#[test]
fn full_coverage_of_three_by_two_grid() {
    let rasters: Vec<Raster> = (0..6).map(|t| tagged(2, 3, t as u8 + 10)).collect();
    let canvas = compose(&rasters, 3, 2).unwrap();
    assert_eq!(canvas.dimensions(), (6, 6));
    for y in 0..6u32 {
        for x in 0..6u32 {
            let cell = (y / 3) * 3 + x / 2;
            let expected = Pixel { r: cell as u8 + 10, g: (x % 2) as u8, b: (y % 3) as u8, a: 255 };
            assert_eq!(canvas.pixel(x, y), expected);
        }
    }
    assert_eq!(canvas.to_pixels().len(), 36);
}

#[test]
fn composing_twice_is_identical() {
    let rasters: Vec<Raster> = (0..4).map(|t| tagged(3, 3, t as u8)).collect();
    let a = compose(&rasters, 4, 1).unwrap();
    let b = compose(&rasters, 4, 1).unwrap();
    assert_eq!(a.dimensions(), b.dimensions());
    assert_eq!(a.to_pixels(), b.to_pixels());
}

#[test]
fn one_by_one_grid_is_the_image() {
    let image = tagged(5, 4, 7);
    let canvas = compose(&vec![tagged(5, 4, 7)], 1, 1).unwrap();
    assert_eq!(canvas.dimensions(), image.dimensions());
    assert_eq!(canvas.to_pixels(), image.to_pixels());
}

#[test]
fn row_of_cells_orders_left_to_right() {
    let canvas = compose(&vec![solid(1, 1, RED), solid(1, 1, GREEN), solid(1, 1, BLUE)], 3, 1).unwrap();
    assert_eq!(canvas.to_pixels(), vec![RED, GREEN, BLUE]);
    let column = compose(&vec![solid(1, 1, RED), solid(1, 1, GREEN), solid(1, 1, BLUE)], 1, 3).unwrap();
    assert_eq!(column.dimensions(), (1, 3));
    assert_eq!(column.to_pixels(), vec![RED, GREEN, BLUE]);
}

#[test]
fn arity_mismatch_is_reported() {
    let three = vec![solid(2, 2, RED), solid(2, 2, GREEN), solid(2, 2, BLUE)];
    assert_eq!(compose(&three, 2, 2).unwrap_err(), StitcherError::GridArityMismatch);
    assert_eq!(compose(&three, 1, 2).unwrap_err(), StitcherError::GridArityMismatch);
    assert_eq!(compose(&Vec::new(), 0, 0).unwrap_err(), StitcherError::GridArityMismatch);
    assert_eq!(compose(&Vec::new(), 0, 3).unwrap_err(), StitcherError::GridArityMismatch);
}

#[test]
fn arity_is_checked_before_size() {
    let mixed = vec![solid(2, 2, RED), solid(3, 2, GREEN), solid(2, 2, BLUE)];
    assert_eq!(compose(&mixed, 2, 2).unwrap_err(), StitcherError::GridArityMismatch);
    let mixed_four = vec![solid(2, 2, RED), solid(3, 2, GREEN), solid(2, 2, BLUE), solid(2, 2, YELLOW)];
    assert_eq!(compose(&mixed_four, 2, 2).unwrap_err(), StitcherError::SizeMismatch);
}

#[test]
fn uniform_sizes_are_accepted() {
    let rasters = vec![solid(3, 2, RED), solid(3, 2, GREEN), solid(3, 2, BLUE)];
    assert_eq!(validate_uniform_size(&rasters), Ok((3, 2)));
    assert_eq!(validate_uniform_size(&vec![solid(0, 4, RED)]), Ok((0, 4)));
}

#[test]
fn differing_sizes_are_rejected() {
    let wider = vec![solid(3, 2, RED), solid(3, 2, GREEN), solid(4, 2, BLUE)];
    assert_eq!(validate_uniform_size(&wider), Err(StitcherError::SizeMismatch));
    let taller = vec![solid(3, 3, RED), solid(3, 2, GREEN)];
    assert_eq!(validate_uniform_size(&taller), Err(StitcherError::SizeMismatch));
    assert_eq!(validate_uniform_size(&Vec::new()), Err(StitcherError::SizeMismatch));
}

#[test]
fn size_helpers() {
    let image = solid(4, 5, RED);
    assert!(is_same_size(&image, 4, 5));
    assert!(!is_same_size(&image, 5, 4));
    assert_eq!(check_size(&image, 4, 5), Ok(()));
    assert_eq!(check_size(&image, 4, 6), Err(StitcherError::SizeMismatch));
    assert_eq!(size_of_first(&vec![solid(7, 1, RED), solid(2, 2, RED)]), Ok((7, 1)));
    assert_eq!(size_of_first(&Vec::new()), Err(StitcherError::SizeMismatch));
    let rest_differs = vec![solid(1, 1, RED), solid(2, 2, RED), solid(2, 2, RED)];
    assert_eq!(check_dimensions(&rest_differs, 2, 2), Ok(()));
    assert_eq!(check_dimensions(&rest_differs, 1, 1), Err(StitcherError::SizeMismatch));
}

#[test]
fn empty_cells_give_empty_canvas() {
    let canvas = compose(&vec![solid(0, 3, RED), solid(0, 3, GREEN)], 2, 1).unwrap();
    assert_eq!(canvas.dimensions(), (0, 3));
    assert!(canvas.to_pixels().is_empty());
}
