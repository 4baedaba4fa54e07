use orient_resize::codec::{decode, encode, OutputFormat};
use orient_resize::error::PipelineError;
use orient_resize::metadata::{get_exif_data, orientation_of};
use orient_resize::orientation::{normalize, Orientation};
use orient_resize::pipeline::{normalize_and_resize, resize_image};
use orient_resize::raster::PixelBuffer;
use orient_resize::resize::{Filter, ResizeMode};

/// A 3 by 2 image whose pixels are all different.
fn sample() -> PixelBuffer {
    let mut pixels = Vec::new();
    for y in 0..2u8 {
        for x in 0..3u8 {
            pixels.push([40 * x, 100 * y, 200 - 30 * x]);
        }
    }
    PixelBuffer::from_pixels(3, 2, pixels).unwrap()
}

fn png_bytes(img: &PixelBuffer) -> Vec<u8> {
    encode(img, OutputFormat::Png).unwrap()
}

fn crc32(data: &[u8]) -> u32 {
    let mut crc: u32 = 0xffff_ffff;
    for &b in data {
        crc ^= b as u32;
        for _ in 0..8 {
            crc = if crc & 1 == 1 { (crc >> 1) ^ 0xedb8_8320 } else { crc >> 1 };
        }
    }
    !crc
}

/// Big-endian TIFF data: a primary directory with Orientation, XResolution and
/// ResolutionUnit, and a thumbnail directory with one Orientation field.
fn tiff_with_orientation(code: u16) -> Vec<u8> {
    let mut t: Vec<u8> = b"MM\x00\x2a\x00\x00\x00\x08".to_vec();
    // Primary directory at 8: 3 entries, then the offset of the next directory.
    t.extend_from_slice(&[0, 3]);
    t.extend_from_slice(&[0x01, 0x12, 0, 3, 0, 0, 0, 1]);
    t.extend_from_slice(&code.to_be_bytes());
    t.extend_from_slice(&[0, 0]);
    // XResolution, a rational stored at 50.
    t.extend_from_slice(&[0x01, 0x1a, 0, 5, 0, 0, 0, 1, 0, 0, 0, 50]);
    // ResolutionUnit = 2 (inch).
    t.extend_from_slice(&[0x01, 0x28, 0, 3, 0, 0, 0, 1, 0, 2, 0, 0]);
    // Next directory at 58.
    t.extend_from_slice(&[0, 0, 0, 58]);
    assert_eq!(t.len(), 50);
    t.extend_from_slice(&[0, 0, 1, 44, 0, 0, 0, 1]);
    assert_eq!(t.len(), 58);
    // Thumbnail directory: one entry, Orientation = 3, no further directory.
    t.extend_from_slice(&[0, 1]);
    t.extend_from_slice(&[0x01, 0x12, 0, 3, 0, 0, 0, 1, 0, 3, 0, 0]);
    t.extend_from_slice(&[0, 0, 0, 0]);
    t
}

/// `png` with an eXIf chunk holding `tiff` right after the header chunk.
fn with_exif(png: &[u8], tiff: &[u8]) -> Vec<u8> {
    let header_end = 8 + 4 + 4 + 13 + 4;
    let mut chunk: Vec<u8> = Vec::new();
    chunk.extend_from_slice(&(tiff.len() as u32).to_be_bytes());
    let mut body: Vec<u8> = b"eXIf".to_vec();
    body.extend_from_slice(tiff);
    chunk.extend_from_slice(&body);
    chunk.extend_from_slice(&crc32(&body).to_be_bytes());
    let mut out = png[..header_end].to_vec();
    out.extend_from_slice(&chunk);
    out.extend_from_slice(&png[header_end..]);
    out
}

fn tagged_png(code: u16) -> Vec<u8> {
    with_exif(&png_bytes(&sample()), &tiff_with_orientation(code))
}

#[test]
fn png_round_trip_is_exact() {
    let img = sample();
    let back = decode(&png_bytes(&img)).unwrap();
    assert_eq!((back.width, back.height), (3, 2));
    assert_eq!(back.pixels, img.pixels);
}

#[test]
fn png_output_has_the_signature() {
    let bytes = png_bytes(&sample());
    assert_eq!(&bytes[..8], b"\x89PNG\r\n\x1a\n");
}

#[test]
fn jpeg_round_trip_keeps_the_dimensions() {
    let mut pixels = Vec::new();
    for y in 0..24u32 {
        for x in 0..40u32 {
            pixels.push([(x * 6) as u8, (y * 10) as u8, 128]);
        }
    }
    let img = PixelBuffer::from_pixels(40, 24, pixels).unwrap();
    let bytes = encode(&img, OutputFormat::Jpeg { quality: 90 }).unwrap();
    assert_eq!(&bytes[..3], &[0xff, 0xd8, 0xff]);
    let back = decode(&bytes).unwrap();
    assert_eq!((back.width, back.height), (40, 24));
}

#[test]
fn empty_bytes_do_not_decode() {
    assert_eq!(decode(&[]).unwrap_err(), PipelineError::Decode);
    assert_eq!(decode(b"not an image at all").unwrap_err(), PipelineError::Decode);
}

#[test]
fn truncated_image_does_not_decode() {
    let bytes = png_bytes(&sample());
    assert_eq!(decode(&bytes[..20]).unwrap_err(), PipelineError::Decode);
}

#[test]
fn empty_image_does_not_encode() {
    let empty = PixelBuffer::from_pixels(0, 0, Vec::new()).unwrap();
    assert_eq!(encode(&empty, OutputFormat::Png).unwrap_err(), PipelineError::Encode);
}

#[test]
fn metadata_of_an_image_without_exif_is_empty() {
    assert!(get_exif_data(png_bytes(&sample())).is_empty());
    assert!(get_exif_data(Vec::new()).is_empty());
    assert!(get_exif_data(b"garbage".to_vec()).is_empty());
}

#[test]
fn metadata_lists_the_primary_fields_with_units() {
    let pairs = get_exif_data(tagged_png(6));
    let expected: Vec<(String, String)> = vec![
        ("Orientation".to_string(), "row 0 at right and column 0 at top".to_string()),
        ("XResolution".to_string(), "300 pixels per inch".to_string()),
        ("ResolutionUnit".to_string(), "inch".to_string()),
    ];
    assert_eq!(pairs, expected);
}

#[test]
fn orientation_is_read_from_the_primary_directory() {
    assert_eq!(orientation_of(&tagged_png(6)), Orientation::Rotate90);
    assert_eq!(orientation_of(&tagged_png(8)), Orientation::Rotate270);
    assert_eq!(orientation_of(&tagged_png(1)), Orientation::Upright);
}

#[test]
fn orientation_outside_the_range_or_missing_is_unspecified() {
    assert_eq!(orientation_of(&tagged_png(0)), Orientation::Unspecified);
    assert_eq!(orientation_of(&tagged_png(9)), Orientation::Unspecified);
    assert_eq!(orientation_of(&png_bytes(&sample())), Orientation::Unspecified);
    assert_eq!(orientation_of(&[]), Orientation::Unspecified);
}

#[test]
fn pipeline_turns_the_image_upright() {
    let out = normalize_and_resize(
        &tagged_png(6),
        ResizeMode::Scale { numerator: 1, denominator: 1 },
        Filter::Nearest,
        OutputFormat::Png,
    )
    .unwrap();
    let img = decode(&out).unwrap();
    assert_eq!((img.width, img.height), (2, 3));
    assert_eq!(img.pixels, normalize(&sample(), Orientation::Rotate90).pixels);
}

#[test]
fn pipeline_fixed_box_output_size() {
    let out = normalize_and_resize(
        &tagged_png(6),
        ResizeMode::FixedBox { width: 4, height: 4 },
        Filter::Lanczos3,
        OutputFormat::Jpeg { quality: 80 },
    )
    .unwrap();
    let img = decode(&out).unwrap();
    assert_eq!((img.width, img.height), (4, 4));
}

#[test]
fn pipeline_reports_undecodable_input() {
    let mode = ResizeMode::Scale { numerator: 1, denominator: 2 };
    assert_eq!(
        normalize_and_resize(&[], mode, Filter::Nearest, OutputFormat::Png).unwrap_err(),
        PipelineError::Decode
    );
    let bytes = tagged_png(6);
    assert_eq!(
        normalize_and_resize(&bytes[..60], mode, Filter::Nearest, OutputFormat::Png).unwrap_err(),
        PipelineError::Decode
    );
}

#[test]
fn pipeline_reports_invalid_dimensions() {
    let mode = ResizeMode::Scale { numerator: 1, denominator: 4 };
    assert_eq!(
        normalize_and_resize(&tagged_png(1), mode, Filter::Nearest, OutputFormat::Png).unwrap_err(),
        PipelineError::InvalidDimensions
    );
}

#[test]
fn resize_image_scales_by_the_factor() {
    let mut pixels = Vec::new();
    for y in 0..200u32 {
        for x in 0..100u32 {
            pixels.push([(x % 256) as u8, (y % 256) as u8, 0]);
        }
    }
    let img = PixelBuffer::from_pixels(100, 200, pixels).unwrap();
    let out = resize_image(png_bytes(&img), 1, 2).unwrap();
    let back = decode(&out).unwrap();
    assert_eq!((back.width, back.height), (50, 100));
}
