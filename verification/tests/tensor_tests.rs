use facenet::tensor::{preprocess_onnx_input, to_planar};

fn rgb_image(width: u32, height: u32, raw: Vec<u8>) -> image::DynamicImage {
    image::DynamicImage::ImageRgb8(image::RgbImage::from_raw(width, height, raw).unwrap())
}

#[test]
fn to_planar_rearranges_interleaved_bytes_exactly() {
    // two pixels: (1,2,3) and (4,5,6)
    let raw: Vec<u8> = vec![1, 2, 3, 4, 5, 6];
    let out = to_planar(&raw, 2, 1);
    assert_eq!(out, vec![1, 4, 2, 5, 3, 6]);
}

#[test]
fn to_planar_on_square_image_buffer() {
    // 2x2 pixels, channel value = 10 * pixel + channel
    let raw: Vec<u8> = vec![0, 1, 2, 10, 11, 12, 20, 21, 22, 30, 31, 32];
    let out = to_planar(&raw, 2, 2);
    assert_eq!(out, vec![0, 10, 20, 30, 1, 11, 21, 31, 2, 12, 22, 32]);
}

#[test]
fn preprocess_keeps_pixels_of_same_size_image() {
    // resizing to the image's own size copies the pixels, so the tensor is
    // exactly the planar rearrangement of the source
    let raw: Vec<u8> = vec![9, 8, 7, 60, 50, 40, 100, 110, 120, 1, 2, 3];
    let img = rgb_image(2, 2, raw.clone());
    let t = preprocess_onnx_input(&img, (2, 2));
    assert_eq!(t.width, 2);
    assert_eq!(t.height, 2);
    assert_eq!(t.data, to_planar(&raw, 2, 2));
}

#[test]
fn preprocess_resizes_uniform_image_to_uniform_planes() {
    // a uniform red image stays uniform under resampling
    let raw: Vec<u8> = vec![255, 0, 0].repeat(4);
    let img = rgb_image(2, 2, raw);
    let t = preprocess_onnx_input(&img, (4, 4));
    assert_eq!(t.data.len(), 3 * 4 * 4);
    assert!(t.data[..16].iter().all(|&v| v == 255));
    assert!(t.data[16..].iter().all(|&v| v == 0));
}

#[test]
fn preprocess_output_has_planar_shape() {
    let raw: Vec<u8> = vec![33; 3 * 6 * 5];
    let img = rgb_image(6, 5, raw);
    let t = preprocess_onnx_input(&img, (8, 3));
    assert_eq!(t.width, 8);
    assert_eq!(t.height, 3);
    assert_eq!(t.data.len(), 3 * 8 * 3);
}
