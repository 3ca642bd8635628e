use rustii::container::{encode_container, open_container};
use rustii::errors::TranscodeError;
use rustii::glyph::glyph_canvas;
use rustii::grid::LumaGrid;
use rustii::params::{trailer_bytes, TransformParameters};

#[test]
fn trailer_renders_whole_numbers() {
    let p = TransformParameters::new(1000, 1000, 0);
    assert_eq!(trailer_bytes(&p), b"Scale: 1, 1\nContrast: 0".to_vec());
}

#[test]
fn trailer_renders_fractions_without_trailing_zeros() {
    let p = TransformParameters::new(650, 250, 20_000);
    assert_eq!(trailer_bytes(&p), b"Scale: 0.65, 0.25\nContrast: 20".to_vec());
    let q = TransformParameters::new(1500, 100, -5_500);
    assert_eq!(trailer_bytes(&q), b"Scale: 1.5, 0.1\nContrast: -5.5".to_vec());
}

#[test]
fn container_round_trip_reproduces_glyphs_and_trailer() {
    // A 2x2 grid of final luminances 0, 85, 170, 255 maps to the glyphs at
    // indices 0, 21, 42 and 63, two rows of two glyphs each, each row
    // terminated, with the trailer after them.
    let grid = LumaGrid::new(2, 2, vec![0, 85, 170, 255]).unwrap();
    let canvas = glyph_canvas(&grid);
    let p = TransformParameters::new(1000, 1000, 0);
    let blob = encode_container(canvas, &p);
    let text = open_container(&blob).unwrap();
    assert_eq!(text, "$O\n|,\nScale: 1, 1\nContrast: 0");
}

#[test]
fn corrupt_container_is_rejected() {
    let blob = b"these bytes are no deflate stream at all".to_vec();
    assert_eq!(open_container(&blob), Err(TranscodeError::CorruptContainer));
}

#[test]
fn non_utf8_payload_is_rejected() {
    let blob = miniz_oxide::deflate::compress_to_vec(&[0xff, 0xfe, 0x80], 10);
    assert_eq!(open_container(&blob), Err(TranscodeError::InvalidEncoding));
}

#[test]
fn error_messages_name_the_failure() {
    assert_eq!(TranscodeError::InvalidScale.message(), "Scale cannot be negative");
    assert_eq!(TranscodeError::CorruptContainer.message(), "Compressed data is corrupt");
}
