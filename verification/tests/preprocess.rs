use blip_caption::error::CaptionError;
use blip_caption::pixels::preprocess;

fn encode_png(width: u32, height: u32, rgb: [u8; 3]) -> Vec<u8> {
    let img = image::RgbImage::from_pixel(width, height, image::Rgb(rgb));
    let mut bytes: Vec<u8> = Vec::new();
    image::DynamicImage::ImageRgb8(img)
        .write_to(&mut std::io::Cursor::new(&mut bytes), image::ImageFormat::Png)
        .unwrap();
    bytes
}

#[test]
fn preprocess_yields_fixed_shape() {
    let bytes = encode_png(5, 9, [1, 2, 3]);
    let tensor = preprocess(&bytes).unwrap();
    assert_eq!(tensor.data.len(), 3 * 384 * 384);
}

#[test]
fn uniform_png_gives_uniform_tensor() {
    // A 1x1 solid-colour PNG: crop-to-fill of a uniform image is uniform,
    // so every spatial position carries the channel's value exactly.
    let bytes = encode_png(1, 1, [10, 200, 30]);
    let tensor = preprocess(&bytes).unwrap();
    let plane = 384 * 384;
    for c in 0..3 {
        let expected = [10u8, 200, 30][c];
        for p in 0..plane {
            assert_eq!(tensor.data[c * plane + p], expected);
        }
    }
}

#[test]
fn channel_first_layout_matches_source_pixels() {
    // A 384x384 image with a single red pixel at the top-left corner and
    // green elsewhere keeps its geometry: no resampling happens at the
    // target size, so the corner must stay distinct in each channel plane.
    let mut img = image::RgbImage::from_pixel(384, 384, image::Rgb([0, 255, 0]));
    img.put_pixel(0, 0, image::Rgb([255, 0, 0]));
    let mut bytes: Vec<u8> = Vec::new();
    image::DynamicImage::ImageRgb8(img)
        .write_to(&mut std::io::Cursor::new(&mut bytes), image::ImageFormat::Png)
        .unwrap();
    let tensor = preprocess(&bytes).unwrap();
    let plane = 384 * 384;
    // red plane: 255 at (0,0), 0 elsewhere
    assert_eq!(tensor.data[0], 255);
    assert_eq!(tensor.data[1], 0);
    // green plane: 0 at (0,0), 255 elsewhere
    assert_eq!(tensor.data[plane], 0);
    assert_eq!(tensor.data[plane + 1], 255);
    // blue plane: all zero
    assert_eq!(tensor.data[2 * plane], 0);
    assert_eq!(tensor.data[2 * plane + 1], 0);
}

#[test]
fn unreadable_bytes_are_a_decode_error() {
    let garbage = vec![0u8, 1, 2, 3, 4, 5, 6, 7];
    assert_eq!(preprocess(&garbage).unwrap_err(), CaptionError::DecodeError);
}

#[test]
fn empty_buffer_is_a_decode_error() {
    let empty: Vec<u8> = Vec::new();
    assert_eq!(preprocess(&empty).unwrap_err(), CaptionError::DecodeError);
}

#[test]
fn preprocess_is_deterministic() {
    // same bytes, same outcome: two successful calls agree bit-for-bit,
    // and two failing calls agree on the error
    let bytes = encode_png(7, 3, [44, 55, 66]);
    let first = preprocess(&bytes).unwrap();
    let second = preprocess(&bytes).unwrap();
    assert_eq!(first.data, second.data);
    let garbage = vec![9u8; 16];
    assert_eq!(preprocess(&garbage).unwrap_err(), preprocess(&garbage).unwrap_err());
}
