use rustii::glyph::{glyph_canvas, palette_bytes};
use rustii::grid::LumaGrid;

#[test]
fn palette_has_seventy_glyphs() {
    let pal = palette_bytes();
    assert_eq!(pal.len(), 70);
    assert_eq!(pal[0], b'$');
    assert_eq!(pal[69], b' ');
}

#[test]
fn every_luminance_maps_inside_palette() {
    let pal = palette_bytes();
    for l in 0..=255u8 {
        let grid = LumaGrid::new(1, 1, vec![l]).unwrap();
        let canvas = glyph_canvas(&grid);
        let index = (l / 4) as usize;
        assert!(index < pal.len());
        assert_eq!(canvas, vec![pal[index], b'\n']);
    }
}

#[test]
fn canvas_rows_terminate_with_newline() {
    let grid = LumaGrid::new(2, 2, vec![0, 85, 170, 255]).unwrap();
    let canvas = glyph_canvas(&grid);
    // 0 -> index 0 '$', 85 -> index 21 'O', 170 -> index 42 '|',
    // 255 -> index 63 ','.
    assert_eq!(canvas, b"$O\n|,\n".to_vec());
}
