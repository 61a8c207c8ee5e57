use car_kinematics::car::{LOGO_WIDTH, SCALE};
use car_kinematics::error::CarError;
use car_kinematics::fixed::Fixed;
use car_kinematics::geometry::{point2, Point};
use car_kinematics::linear_algebra::Matrix;
use car_kinematics::logo::{
    argb, logo_extents, logo_from_raster, logo_height, new_logo, pack_pixels, pixel_extent,
    Picture, MAX_EXTENT,
};
use car_kinematics::rect::Source;

const RED_BAR: &str = "<svg xmlns='http://www.w3.org/2000/svg' width='100' height='50'><rect width='100' height='50' fill='#ff0000'/></svg>";

const TWO_HALVES: &str = "<svg xmlns='http://www.w3.org/2000/svg' width='20' height='20'><rect width='10' height='20' fill='#00ff00'/><rect x='10' width='10' height='20' fill='#0000ff'/></svg>";

fn fx(x: f64) -> Fixed {
    Fixed::from_raw((x * 4294967296.0).round() as i64)
}

fn pt(x: f64, y: f64) -> Point {
    point2(fx(x), fx(y))
}

fn words(source: Source) -> Vec<u32> {
    match source {
        Source::Image(words) => words,
        Source::Color(_) => panic!("a logo is a picture"),
    }
}

/// Draws a document for a logo that is `width` wide, as a caller of the
/// library does.
fn draw(document: &str, width: Fixed) -> Picture {
    let tree = usvg::Tree::from_str(document, &usvg::Options::default().to_ref()).unwrap();
    let size = tree.svg_node().size;
    let picture_width = Fixed::from_double_bits(size.width().to_bits()).unwrap();
    let picture_height = Fixed::from_double_bits(size.height().to_bits()).unwrap();
    let (_, pixel_width, pixel_height) =
        logo_extents(width, picture_width, picture_height).unwrap();
    let mut pixmap = tiny_skia::Pixmap::new(pixel_width, pixel_height).unwrap();
    resvg::render(&tree, usvg::FitTo::Width(pixel_width), pixmap.as_mut()).unwrap();
    Picture { width: picture_width, height: picture_height, raster: pixmap.data().to_vec() }
}

fn bar(pixels: usize) -> Picture {
    let mut raster = Vec::new();
    for i in 0..pixels {
        raster.extend_from_slice(&[i as u8, 2, 3, 4]);
    }
    Picture { width: fx(100.0), height: fx(50.0), raster }
}

#[test]
fn a_pixel_word_holds_alpha_red_green_blue() {
    assert_eq!(argb(0x11, 0x22, 0x33, 0x44), 0x44112233);
    assert_eq!(argb(0xff, 0xff, 0xff, 0xff), 0xffffffff);
    assert_eq!(argb(0, 0, 0, 0), 0);
    assert_eq!(argb(1, 2, 3, 4), u32::from_be_bytes([4, 1, 2, 3]));
}

#[test]
fn pixels_are_packed_four_bytes_at_a_time() {
    assert_eq!(pack_pixels(&[]), Vec::<u32>::new());
    assert_eq!(pack_pixels(&[1, 2, 3, 4]), vec![0x04010203]);
    assert_eq!(
        pack_pixels(&[1, 2, 3, 4, 0xaa, 0xbb, 0xcc, 0xdd]),
        vec![0x04010203, 0xddaabbcc]
    );
}

#[test]
fn bytes_left_over_are_dropped() {
    assert_eq!(pack_pixels(&[1, 2, 3]), Vec::<u32>::new());
    assert_eq!(pack_pixels(&[1, 2, 3, 4, 5]), vec![0x04010203]);
    assert_eq!(pack_pixels(&[1, 2, 3, 4, 5, 6, 7]), vec![0x04010203]);
}

#[test]
fn the_height_follows_the_pictures_proportions() {
    assert_eq!(logo_height(fx(1.0), fx(100.0), fx(50.0)), fx(0.5));
    assert_eq!(logo_height(fx(3.0), fx(20.0), fx(20.0)), fx(3.0));
    assert_eq!(logo_height(fx(2.0), fx(64.0), fx(16.0)), fx(0.5));
}

#[test]
fn thirty_pixels_to_the_metre() {
    assert_eq!(SCALE, 30 << 32);
    assert_eq!(pixel_extent(fx(1.0)), 30);
    assert_eq!(pixel_extent(fx(0.5)), 15);
    assert_eq!(pixel_extent(fx(0.51)), 15);
    assert_eq!(pixel_extent(fx(0.03)), 0);
    assert_eq!(pixel_extent(fx(-1.0)), 0);
}

#[test]
fn the_extents_of_a_logo() {
    assert_eq!(MAX_EXTENT, 4096);
    assert_eq!(logo_extents(fx(1.0), fx(100.0), fx(50.0)), Ok((fx(0.5), 30, 15)));
    assert_eq!(logo_extents(fx(2.0), fx(20.0), fx(20.0)), Ok((fx(2.0), 60, 60)));
    assert_eq!(logo_extents(fx(136.0), fx(100.0), fx(50.0)), Ok((fx(68.0), 4080, 2040)));
    assert_eq!(logo_extents(fx(1.0), fx(10.0), fx(1365.0)), Ok((fx(136.5), 30, 4095)));
}

#[test]
fn extents_that_are_not_positive_are_invalid_dimensions() {
    assert_eq!(logo_extents(fx(0.0), fx(100.0), fx(50.0)), Err(CarError::InvalidDimension));
    assert_eq!(logo_extents(fx(-1.0), fx(100.0), fx(50.0)), Err(CarError::InvalidDimension));
    assert_eq!(logo_extents(fx(1.0), fx(100.0), fx(0.0)), Err(CarError::InvalidDimension));
    assert_eq!(logo_extents(fx(1.0), fx(100.0), fx(-50.0)), Err(CarError::InvalidDimension));
    assert_eq!(logo_extents(fx(1.0), fx(-100.0), fx(50.0)), Err(CarError::InvalidDimension));
}

#[test]
fn extents_of_no_pixel_or_too_many_cannot_be_drawn() {
    assert_eq!(logo_extents(fx(0.01), fx(100.0), fx(50.0)), Err(CarError::AssetLoadError));
    assert_eq!(logo_extents(fx(1.0), fx(100.0), fx(1.0)), Err(CarError::AssetLoadError));
    assert_eq!(logo_extents(fx(137.0), fx(100.0), fx(50.0)), Err(CarError::AssetLoadError));
    assert_eq!(logo_extents(fx(1.0), fx(10.0), fx(1366.0)), Err(CarError::AssetLoadError));
    // a picture of no width is as high as can be
    assert_eq!(logo_extents(fx(1.0), fx(0.0), fx(50.0)), Err(CarError::AssetLoadError));
}

#[test]
fn a_logo_from_a_raster() {
    let logo = logo_from_raster(pt(1.0, 2.0), fx(1.0), fx(0.5), &[9, 8, 7, 6, 5, 4, 3, 2]).unwrap();
    assert_eq!(logo.origin, pt(1.0, 2.0));
    assert_eq!(logo.width, fx(1.0));
    assert_eq!(logo.height, fx(0.5));
    assert_eq!(logo.rotation_matrix, Matrix::eye());
    assert_eq!(words(logo.source), vec![0x06090807, 0x02050403]);
}

#[test]
fn a_logo_from_a_raster_needs_positive_extents() {
    let r = logo_from_raster(pt(0.0, 0.0), fx(0.0), fx(0.5), &[1, 2, 3, 4]);
    assert!(matches!(r, Err(CarError::InvalidDimension)));
    let r = logo_from_raster(pt(0.0, 0.0), fx(1.0), fx(-0.5), &[1, 2, 3, 4]);
    assert!(matches!(r, Err(CarError::InvalidDimension)));
}

#[test]
fn a_new_logo_has_the_pictures_proportions_and_pixels() {
    let logo = new_logo(pt(3.0, 4.0), Fixed::from_raw(LOGO_WIDTH), &bar(30 * 15)).unwrap();
    assert_eq!(logo.origin, pt(3.0, 4.0));
    assert_eq!(logo.width, fx(1.0));
    assert_eq!(logo.height, fx(0.5));
    assert_eq!(logo.rotation_matrix, Matrix::eye());
    let pixels = words(logo.source);
    assert_eq!(pixels.len(), 30 * 15);
    assert_eq!(pixels[0], 0x04000203);
    assert_eq!(pixels[7], 0x04070203);
    assert_eq!(pixels[449], 0x04c10203);
}

#[test]
fn a_new_logo_needs_a_raster_drawn_at_its_extents() {
    for pixels in [0, 1, 30 * 15 - 1, 30 * 15 + 1, 60 * 30] {
        let r = new_logo(pt(0.0, 0.0), fx(1.0), &bar(pixels));
        assert!(matches!(r, Err(CarError::AssetLoadError)), "{} pixels", pixels);
    }
    let mut ragged = bar(30 * 15);
    ragged.raster.push(0);
    assert!(matches!(new_logo(pt(0.0, 0.0), fx(1.0), &ragged), Err(CarError::AssetLoadError)));
    // the same raster fits a logo of another width no longer
    assert!(matches!(new_logo(pt(0.0, 0.0), fx(2.0), &bar(30 * 15)), Err(CarError::AssetLoadError)));
    assert!(new_logo(pt(0.0, 0.0), fx(2.0), &bar(60 * 30)).is_ok());
}

#[test]
fn a_new_logo_needs_positive_extents() {
    for width in [0.0, -1.0, -1.0e-9] {
        let r = new_logo(pt(0.0, 0.0), fx(width), &bar(30 * 15));
        assert!(matches!(r, Err(CarError::InvalidDimension)));
        let r = new_logo(pt(0.0, 0.0), fx(width), &bar(0));
        assert!(matches!(r, Err(CarError::InvalidDimension)));
    }
    let flat = Picture { width: fx(100.0), height: fx(0.0), raster: Vec::new() };
    assert!(matches!(new_logo(pt(0.0, 0.0), fx(1.0), &flat), Err(CarError::InvalidDimension)));
}

#[test]
fn a_new_logo_must_be_at_least_a_pixel_wide_and_not_too_large() {
    let r = new_logo(pt(0.0, 0.0), fx(0.01), &bar(0));
    assert!(matches!(r, Err(CarError::AssetLoadError)));
    let r = new_logo(pt(0.0, 0.0), fx(137.0), &bar(0));
    assert!(matches!(r, Err(CarError::AssetLoadError)));
}

#[test]
fn a_drawn_logo_has_the_pictures_proportions() {
    let width = Fixed::from_raw(LOGO_WIDTH);
    let logo = new_logo(pt(3.0, 4.0), width, &draw(RED_BAR, width)).unwrap();
    assert_eq!(logo.origin, pt(3.0, 4.0));
    assert_eq!(logo.width, fx(1.0));
    assert_eq!(logo.height, fx(0.5));
    let pixels = words(logo.source);
    assert_eq!(pixels.len(), 30 * 15);
    assert!(pixels.iter().all(|&p| p == 0xffff0000));
}

#[test]
fn a_drawn_logo_holds_its_pixels_row_by_row() {
    let logo = new_logo(pt(0.0, 0.0), fx(2.0), &draw(TWO_HALVES, fx(2.0))).unwrap();
    assert_eq!(logo.height, fx(2.0));
    let pixels = words(logo.source);
    assert_eq!(pixels.len(), 60 * 60);
    for row in 0..60 {
        assert_eq!(pixels[row * 60], 0xff00ff00, "row {}", row);
        assert_eq!(pixels[row * 60 + 29], 0xff00ff00, "row {}", row);
        assert_eq!(pixels[row * 60 + 30], 0xff0000ff, "row {}", row);
        assert_eq!(pixels[row * 60 + 59], 0xff0000ff, "row {}", row);
    }
}
