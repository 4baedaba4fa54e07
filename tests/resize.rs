use orient_resize::error::PipelineError;
use orient_resize::raster::PixelBuffer;
use orient_resize::resize::{cover_box, crop, resize, Filter, ResizeMode};

fn gradient(width: u32, height: u32) -> PixelBuffer {
    let mut pixels = Vec::new();
    for y in 0..height {
        for x in 0..width {
            pixels.push([(x % 256) as u8, (y % 256) as u8, 7]);
        }
    }
    PixelBuffer::from_pixels(width, height, pixels).unwrap()
}

#[test]
fn half_scale_halves_both_sides() {
    let out = resize(&gradient(100, 200), ResizeMode::Scale { numerator: 1, denominator: 2 }, Filter::Nearest).unwrap();
    assert_eq!((out.width, out.height), (50, 100));
    assert_eq!(out.pixels.len(), 5000);
}

#[test]
fn unit_scale_keeps_the_image() {
    let img = gradient(100, 200);
    let out = resize(&img, ResizeMode::Scale { numerator: 1, denominator: 1 }, Filter::Lanczos3).unwrap();
    assert_eq!((out.width, out.height), (100, 200));
    assert_eq!(out.pixels, img.pixels);
}

#[test]
fn scale_rounds_down() {
    let out = resize(&gradient(7, 5), ResizeMode::Scale { numerator: 2, denominator: 3 }, Filter::Nearest).unwrap();
    assert_eq!((out.width, out.height), (4, 3));
}

#[test]
fn zero_scale_is_invalid() {
    let img = gradient(100, 200);
    assert_eq!(
        resize(&img, ResizeMode::Scale { numerator: 0, denominator: 2 }, Filter::Nearest).unwrap_err(),
        PipelineError::InvalidDimensions
    );
    assert_eq!(
        resize(&img, ResizeMode::Scale { numerator: 1, denominator: 0 }, Filter::Nearest).unwrap_err(),
        PipelineError::InvalidDimensions
    );
    assert_eq!(
        resize(&img, ResizeMode::Scale { numerator: 1, denominator: 101 }, Filter::Nearest).unwrap_err(),
        PipelineError::InvalidDimensions
    );
}

#[test]
fn fixed_box_is_filled_exactly() {
    let out = resize(&gradient(100, 200), ResizeMode::FixedBox { width: 50, height: 50 }, Filter::Nearest).unwrap();
    assert_eq!((out.width, out.height), (50, 50));
    assert_eq!(out.pixels.len(), 2500);
    // Nothing is padded: every pixel keeps the constant blue channel of the source.
    assert!(out.pixels.iter().all(|p| p[2] == 7));
}

#[test]
fn fixed_box_crops_the_centre() {
    // 100 x 200 covers 50 x 50 at 50 x 100; the window starts 25 rows down.
    let img = gradient(100, 200);
    let out = resize(&img, ResizeMode::FixedBox { width: 50, height: 50 }, Filter::Nearest).unwrap();
    let cover = resize(&img, ResizeMode::Scale { numerator: 1, denominator: 2 }, Filter::Nearest).unwrap();
    let window = crop(&cover, 0, 25, 50, 50);
    assert_eq!(out.pixels, window.pixels);
}

#[test]
fn empty_box_is_invalid() {
    let img = gradient(10, 10);
    assert_eq!(
        resize(&img, ResizeMode::FixedBox { width: 0, height: 5 }, Filter::Nearest).unwrap_err(),
        PipelineError::InvalidDimensions
    );
    let empty = PixelBuffer::from_pixels(0, 0, Vec::new()).unwrap();
    assert_eq!(
        resize(&empty, ResizeMode::FixedBox { width: 5, height: 5 }, Filter::Nearest).unwrap_err(),
        PipelineError::InvalidDimensions
    );
}

#[test]
fn cover_box_matches_one_side() {
    assert_eq!(cover_box(100, 200, 50, 50), (50, 100));
    assert_eq!(cover_box(200, 100, 50, 50), (100, 50));
    assert_eq!(cover_box(3, 2, 4, 4), (6, 4));
    assert_eq!(cover_box(3, 7, 2, 2), (2, 5));
}

#[test]
fn crop_takes_the_window() {
    let img = gradient(4, 3);
    let out = crop(&img, 1, 1, 2, 2);
    assert_eq!(out.pixels, vec![[1, 1, 7], [2, 1, 7], [1, 2, 7], [2, 2, 7]]);
}
