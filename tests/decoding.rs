use convolution_wasm::decode::{decode_image, image_from_luma, DecodeError};
use std::io::Cursor;

fn png_bytes(width: u32, height: u32, pixels: Vec<u8>) -> Vec<u8> {
    let img = image::GrayImage::from_raw(width, height, pixels).unwrap();
    let mut out = Cursor::new(Vec::new());
    img.write_to(&mut out, image::ImageFormat::Png).unwrap();
    out.into_inner()
}

#[test]
fn decodes_grayscale_png() {
    let bytes = png_bytes(3, 2, vec![0, 10, 20, 30, 40, 255]);
    let img = decode_image(&bytes).unwrap();
    assert_eq!(img.width(), 3);
    assert_eq!(img.height(), 2);
    assert_eq!(img.pixels(), &vec![0, 10, 20, 30, 40, 255]);
    assert_eq!(img.pixel(2, 1), 255);
}

#[test]
fn rejects_bytes_that_are_no_image() {
    match decode_image(&vec![1, 2, 3, 4, 5]) {
        Err(DecodeError::Invalid(msg)) => assert!(!msg.is_empty()),
        other => panic!("expected an invalid image, got {:?}", other.err()),
    }
}

#[test]
fn luma_buffer_must_match_sides() {
    assert!(image_from_luma(0, 2, vec![]).is_none());
    assert!(image_from_luma(2, 2, vec![1, 2, 3]).is_none());
    let img = image_from_luma(2, 1, vec![7, 9]).unwrap();
    assert_eq!(img.pixel(1, 0), 9);
}
