use rustii::container::open_container;
use rustii::errors::TranscodeError;
use rustii::grid::PixelGrid;
use rustii::params::TransformParameters;
use rustii::pipeline::{render, render_bytes, render_round_trip};

fn gray_grid(width: usize, height: usize, value: u8) -> PixelGrid {
    PixelGrid::new(width, height, vec![value; 3 * width * height]).unwrap()
}

#[test]
fn negative_scale_is_rejected() {
    let grid = gray_grid(2, 2, 100);
    let p = TransformParameters::new(-500, 1000, 0);
    assert_eq!(render(&grid, &p), Err(TranscodeError::InvalidScale));
    let q = TransformParameters::new(1000, -1, 0);
    assert_eq!(render(&grid, &q), Err(TranscodeError::InvalidScale));
}

#[test]
fn zero_scale_is_a_degenerate_dimension() {
    let grid = gray_grid(2, 2, 100);
    let p = TransformParameters::new(0, 1000, 0);
    assert_eq!(render(&grid, &p), Err(TranscodeError::DegenerateDimension));
}

#[test]
fn rendering_twice_is_deterministic() {
    let grid = gray_grid(3, 2, 90);
    let p = TransformParameters::new(1000, 1000, 15_000);
    let first = render(&grid, &p).unwrap();
    let second = render(&grid, &p).unwrap();
    assert_eq!(first, second);
}

#[test]
fn render_and_open_round_trip() {
    // A uniform grey source stays uniform through the chain: luminance 100
    // maps to the glyph at index 25, which is 'C'.
    let grid = gray_grid(2, 2, 100);
    let p = TransformParameters::new(1000, 1000, 0);
    let (blob, text) = render_round_trip(&grid, &p);
    assert_eq!(text, "CC\nCC\nScale: 1, 1\nContrast: 0");
    assert_eq!(open_container(&blob).unwrap(), text);
}

#[test]
fn round_trip_row_and_column_counts_follow_the_scales() {
    let grid = gray_grid(2, 2, 100);
    let p = TransformParameters::new(2000, 1500, 0);
    let (_, text) = render_round_trip(&grid, &p);
    // round(2 * 2.0) = 4 columns, round(2 * 1.5) = 3 rows.
    assert_eq!(text, "CCCC\nCCCC\nCCCC\nScale: 2, 1.5\nContrast: 0");
}

#[test]
fn render_bytes_decodes_a_real_image() {
    let img = image::RgbImage::from_raw(2, 2, vec![100; 12]).unwrap();
    let mut cursor = std::io::Cursor::new(Vec::new());
    image::DynamicImage::ImageRgb8(img).write_to(&mut cursor, image::ImageFormat::Png).unwrap();
    let bytes = cursor.into_inner();
    let p = TransformParameters::new(1000, 1000, 0);
    let blob = render_bytes(&bytes, &p).unwrap();
    let text = open_container(&blob).unwrap();
    assert_eq!(text, "CC\nCC\nScale: 1, 1\nContrast: 0");
}

#[test]
fn render_bytes_rejects_undecodable_input() {
    let bytes = b"this is not an encoded image".to_vec();
    let p = TransformParameters::new(1000, 1000, 0);
    assert_eq!(render_bytes(&bytes, &p), Err(TranscodeError::SourceUnreadable));
}

#[test]
fn render_bytes_still_validates_scales_first() {
    let bytes = b"this is not an encoded image".to_vec();
    let p = TransformParameters::new(-500, 1000, 0);
    assert_eq!(render_bytes(&bytes, &p), Err(TranscodeError::InvalidScale));
}
