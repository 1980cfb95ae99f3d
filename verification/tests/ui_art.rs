use navipod::ui::art::{art_from_decoded, decode_art, ArtError};
use std::io::Cursor;

fn png(width: u32, height: u32) -> Vec<u8> {
    let raw: Vec<u8> = (0..width * height * 4).map(|i| (i * 7) as u8 | if i % 4 == 3 { 255 } else { 0 }).collect();
    let picture = image::RgbaImage::from_raw(width, height, raw).unwrap();
    let mut bytes = Cursor::new(Vec::new());
    picture.write_to(&mut bytes, image::ImageFormat::Png).unwrap();
    bytes.into_inner()
}

#[test]
fn a_png_becomes_pixels() {
    let art = decode_art(&png(3, 2)).unwrap();
    assert_eq!((art.width, art.height), (3, 2));
    assert_eq!(art.raw.len(), 18);
    assert_eq!(art.raw[..6], [0, 7, 14, 28, 35, 42]);
}

#[test]
fn a_jpeg_becomes_pixels() {
    let picture = image::RgbImage::from_pixel(16, 8, image::Rgb([200, 200, 200]));
    let mut bytes = Cursor::new(Vec::new());
    picture.write_to(&mut bytes, image::ImageFormat::Jpeg).unwrap();
    let art = decode_art(&bytes.into_inner()).unwrap();
    assert_eq!((art.width, art.height), (16, 8));
    assert_eq!(art.raw.len(), 384);
    assert!(art.raw.iter().all(|b| b.abs_diff(200) <= 3));
}

#[test]
fn what_is_no_picture_is_an_error() {
    assert!(matches!(decode_art(&[]), Err(ArtError::Decode(_))));
    assert!(matches!(decode_art(b"<html>not found</html>"), Err(ArtError::Decode(_))));
    let mut cut = png(8, 8);
    cut.truncate(20);
    assert!(matches!(decode_art(&cut), Err(ArtError::Decode(_))));
}

#[test]
fn what_the_decoders_cannot_be_given_is_refused() {
    assert!(matches!(decode_art(&[0xff, 0xd8, 0xff]), Err(ArtError::Unreadable)));
}

#[test]
fn decoded_pictures_are_handed_on() {
    let art = art_from_decoded(Ok((vec![1, 2, 3], 1, 1))).unwrap();
    assert_eq!((art.raw, art.width, art.height), (vec![1, 2, 3], 1, 1));
    let error = image::load_from_memory(&[]).unwrap_err();
    let text = format!("{error}");
    match art_from_decoded(Err(error)) {
        Err(ArtError::Decode(e)) => assert_eq!(format!("{e}"), text),
        _ => panic!("no picture"),
    }
}

#[test]
fn pixels_of_a_grey_png_are_kept() {
    let grey = image::GrayImage::from_raw(2, 2, vec![0, 1, 128, 255]).unwrap();
    let mut bytes = Cursor::new(Vec::new());
    grey.write_to(&mut bytes, image::ImageFormat::Png).unwrap();
    let bytes = bytes.into_inner();
    assert_eq!(bytes[24], 8);
    let art = decode_art(&bytes).unwrap();
    assert_eq!((art.width, art.height), (2, 2));
    assert_eq!(art.raw, [0, 0, 0, 1, 1, 1, 128, 128, 128, 255, 255, 255]);
    let again = decode_art(&bytes).unwrap();
    assert_eq!((again.raw, again.width, again.height), (art.raw, art.width, art.height));
}

#[test]
fn pixels_of_a_jpeg_are_those_of_the_decoder() {
    let picture = image::RgbImage::from_fn(20, 10, |x, y| image::Rgb([x as u8 * 12, y as u8 * 25, 90]));
    let mut bytes = Cursor::new(Vec::new());
    picture.write_to(&mut bytes, image::ImageFormat::Jpeg).unwrap();
    let bytes = bytes.into_inner();
    let art = decode_art(&bytes).unwrap();
    assert_eq!(art.raw, image::load_from_memory(&bytes).unwrap().to_rgb8().into_raw());
    assert!(art.raw.iter().any(|b| *b > 200));
}
