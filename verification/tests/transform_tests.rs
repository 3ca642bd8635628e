use rustii::grid::{LumaGrid, PixelGrid};
use rustii::transform::{adjust_contrast, resize_nearest, sharpen, to_grayscale};

fn luma(width: usize, height: usize, data: Vec<u8>) -> LumaGrid {
    LumaGrid::new(width, height, data).unwrap()
}

fn rgb(width: usize, height: usize, data: Vec<u8>) -> PixelGrid {
    PixelGrid::new(width, height, data).unwrap()
}

#[test]
fn contrast_zero_is_identity() {
    let grid = luma(2, 2, vec![0, 85, 170, 255]);
    let adjusted = adjust_contrast(&grid, 0);
    assert_eq!(adjusted.data, vec![0, 85, 170, 255]);
    assert_eq!(adjusted.width, 2);
    assert_eq!(adjusted.height, 2);
}

#[test]
fn contrast_positive_spreads_values() {
    // A contrast of 20 gives the factor ((20 + 100) / 100)^2 = 1.44, so a
    // luminance of 200 moves to 128 + trunc(72 * 1.44) = 231.
    let grid = luma(1, 1, vec![200]);
    let adjusted = adjust_contrast(&grid, 20_000);
    assert_eq!(adjusted.data, vec![231]);
}

#[test]
fn contrast_negative_hundred_flattens_to_gray() {
    // A contrast of -100 gives factor zero: everything collapses to 128.
    let grid = luma(2, 1, vec![0, 255]);
    let adjusted = adjust_contrast(&grid, -100_000);
    assert_eq!(adjusted.data, vec![128, 128]);
}

#[test]
fn resize_identity_keeps_pixels() {
    let grid = rgb(2, 2, vec![1, 2, 3, 4, 5, 6, 7, 8, 9, 10, 11, 12]);
    let resized = resize_nearest(&grid, 2, 2);
    assert_eq!(resized.data, vec![1, 2, 3, 4, 5, 6, 7, 8, 9, 10, 11, 12]);
}

#[test]
fn resize_doubles_by_replication() {
    let grid = rgb(1, 1, vec![9, 8, 7]);
    let resized = resize_nearest(&grid, 2, 2);
    assert_eq!(resized.width, 2);
    assert_eq!(resized.height, 2);
    assert_eq!(resized.data, vec![9, 8, 7, 9, 8, 7, 9, 8, 7, 9, 8, 7]);
}

#[test]
fn grayscale_weights_channels() {
    // (2126 * 10 + 7152 * 20 + 722 * 30) / 10000 == 18.
    let grid = rgb(1, 1, vec![10, 20, 30]);
    let gray = to_grayscale(&grid);
    assert_eq!(gray.data, vec![18]);
}

#[test]
fn grayscale_keeps_gray_samples() {
    let grid = rgb(2, 1, vec![100, 100, 100, 255, 255, 255]);
    let gray = to_grayscale(&grid);
    assert_eq!(gray.data, vec![100, 255]);
}

#[test]
fn sharpen_keeps_uniform_grid() {
    let grid = luma(3, 3, vec![77; 9]);
    let sharp = sharpen(&grid);
    assert_eq!(sharp.data, vec![77; 9]);
}

#[test]
fn sharpen_exact_two_by_two() {
    // With edge replication: 5*0-0-85-0-170 = -255 -> 0; 5*85-0-85-85-255 = 0;
    // 5*170-170-255-0-170 = 255; 5*255-170-255-85-255 = 510 -> 255.
    let grid = luma(2, 2, vec![0, 85, 170, 255]);
    let sharp = sharpen(&grid);
    assert_eq!(sharp.data, vec![0, 0, 255, 255]);
}
