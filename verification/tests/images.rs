use std::io::Cursor;

use dapr_wasm::decimal::to_decimal_list;
use dapr_wasm::guest;
use dapr_wasm::imaging::{
    grayscale, grayscale_image, grayscale_internal, grayscale_text, output_format_for, DetectedFormat, ImageFailure,
    OutputFormat,
};
use image::{DynamicImage, ImageBuffer, ImageOutputFormat, LumaA, Rgb, Rgb32FImage, RgbImage, Rgba};

const PNG_SIGNATURE: [u8; 8] = [137, 80, 78, 71, 13, 10, 26, 10];

fn colour_image() -> DynamicImage {
    let mut img = RgbImage::new(3, 2);
    img.put_pixel(0, 0, Rgb([255, 0, 0]));
    img.put_pixel(1, 0, Rgb([0, 255, 0]));
    img.put_pixel(2, 1, Rgb([0, 0, 255]));
    DynamicImage::ImageRgb8(img)
}

fn encoded(format: ImageOutputFormat) -> Vec<u8> {
    let mut out = Cursor::new(Vec::new());
    colour_image().write_to(&mut out, format).unwrap();
    out.into_inner()
}

fn float_image_exr() -> Vec<u8> {
    let img = Rgb32FImage::from_pixel(2, 2, Rgb([0.5f32, 0.25, 0.125]));
    let mut out = Cursor::new(Vec::new());
    DynamicImage::ImageRgb32F(img).write_to(&mut out, ImageOutputFormat::OpenExr).unwrap();
    out.into_inner()
}

#[test]
fn keeps_gif_and_turns_other_formats_into_png() {
    assert_eq!(output_format_for(&DetectedFormat::Gif), OutputFormat::Gif);
    assert_eq!(output_format_for(&DetectedFormat::Other), OutputFormat::Png);
}

#[test]
fn grays_a_png_into_a_png() {
    let out = grayscale(&encoded(ImageOutputFormat::Png));
    assert_eq!(&out[..8], &PNG_SIGNATURE);
    let back = image::load_from_memory(&out).unwrap();
    assert_eq!(back.color(), image::ColorType::L8);
    assert_eq!((back.width(), back.height()), (3, 2));
    let expected = colour_image().grayscale().to_luma8();
    assert_eq!(back.to_luma8(), expected);
}

#[test]
fn grays_a_gif_into_a_gif() {
    let out = grayscale(&encoded(ImageOutputFormat::Gif));
    assert_eq!(&out[..6], b"GIF89a");
    let back = image::load_from_memory(&out).unwrap();
    assert_eq!((back.width(), back.height()), (3, 2));
}

#[test]
fn grays_a_bmp_into_a_png() {
    let out = grayscale(&encoded(ImageOutputFormat::Bmp));
    assert_eq!(&out[..8], &PNG_SIGNATURE);
    assert_eq!(grayscale_image(&encoded(ImageOutputFormat::Bmp)), Ok(out));
}

#[test]
fn the_output_is_the_grayscale_image_written_again() {
    let png = encoded(ImageOutputFormat::Png);
    let mut expected = Cursor::new(Vec::new());
    image::load_from_memory(&png).unwrap().grayscale().write_to(&mut expected, ImageOutputFormat::Png).unwrap();
    assert_eq!(grayscale_image(&png), Ok(expected.into_inner()));
    assert_ne!(grayscale_image(&png), Ok(png.clone()));
}

#[test]
fn refuses_unknown_and_broken_images() {
    assert_eq!(grayscale_image(b"hello world"), Err(ImageFailure::UnknownFormat));
    assert_eq!(grayscale_image(&[]), Err(ImageFailure::UnknownFormat));
    assert_eq!(grayscale_image(b"GIF88a"), Err(ImageFailure::UnknownFormat));
    assert_eq!(grayscale_image(&PNG_SIGNATURE), Err(ImageFailure::Decode));
    assert_eq!(grayscale_image(b"GIF89a"), Err(ImageFailure::Decode));
    assert_eq!(grayscale_image(b"qoif"), Err(ImageFailure::Decode));
    assert_eq!(grayscale_image(b"P7"), Err(ImageFailure::Decode));
}

#[test]
fn a_float_image_cannot_be_written_as_png() {
    let exr = float_image_exr();
    assert!(image::load_from_memory(&exr).is_ok());
    assert_eq!(grayscale_image(&exr), Err(ImageFailure::Encode));
    assert_eq!(grayscale_text(&exr), Err(ImageFailure::Encode));
}

#[test]
fn the_grayscale_text_is_base64_of_the_grayscale_image() {
    let png = encoded(ImageOutputFormat::Png);
    let text = grayscale_internal(&png);
    let bytes = grayscale(&png);
    assert_eq!(text, base64::encode(&bytes));
    assert_eq!(base64::decode(&text).unwrap(), bytes);
    assert!(text.starts_with("iVBORw0KGgo"));
    assert_eq!(text.len(), 4 * ((bytes.len() + 2) / 3));
    assert_eq!(grayscale_text(&png), Ok(text));
    assert_eq!(grayscale_text(b"nope"), Err(ImageFailure::UnknownFormat));
}

#[test]
fn the_guest_function_reads_a_decimal_list() {
    let png = encoded(ImageOutputFormat::Png);
    let listed = to_decimal_list(&png);
    let text = guest::grayscale(listed.clone());
    assert_eq!(text, grayscale_internal(&png));
    assert_eq!(guest::checked_grayscale(listed), Ok(text));
}

#[test]
fn the_guest_function_refuses_what_is_not_a_byte_list() {
    for bad in ["", "1,x", "1, 2", "256", "1,2,", "-1"] {
        assert_eq!(guest::checked_grayscale(bad.to_string()), Err(guest::GuestFailure::NotAByteList), "{bad}");
    }
    assert_eq!(
        guest::checked_grayscale("104,105".to_string()),
        Err(guest::GuestFailure::Image(ImageFailure::UnknownFormat))
    );
    assert_eq!(
        guest::checked_grayscale("137,80,78,71,13,10,26,10".to_string()),
        Err(guest::GuestFailure::Image(ImageFailure::Decode))
    );
}

fn png_of(img: DynamicImage) -> Vec<u8> {
    let mut out = Cursor::new(Vec::new());
    img.write_to(&mut out, ImageOutputFormat::Png).unwrap();
    out.into_inner()
}

#[test]
fn colours_become_their_integer_luma() {
    let back = image::load_from_memory(&grayscale(&encoded(ImageOutputFormat::Png))).unwrap().to_luma8();
    // (2126 r + 7152 g + 722 b) / 10000, rounded down
    assert_eq!(back.get_pixel(0, 0).0, [54]);
    assert_eq!(back.get_pixel(1, 0).0, [182]);
    assert_eq!(back.get_pixel(2, 1).0, [18]);
    assert_eq!(back.get_pixel(0, 1).0, [0]);
}

#[test]
fn sixteen_bit_colour_keeps_its_alpha() {
    let mut img: ImageBuffer<Rgba<u16>, Vec<u16>> = ImageBuffer::new(2, 1);
    img.put_pixel(0, 0, Rgba([65535, 0, 0, 1000]));
    img.put_pixel(1, 0, Rgba([1000, 2000, 3000, 65535]));
    let out = grayscale(&png_of(DynamicImage::ImageRgba16(img)));
    let back = image::load_from_memory(&out).unwrap();
    assert_eq!(back.color(), image::ColorType::La16);
    let back = back.to_luma_alpha16();
    assert_eq!(back.get_pixel(0, 0).0, [13932, 1000]);
    assert_eq!(back.get_pixel(1, 0).0, [1859, 65535]);
}

#[test]
fn a_gray_image_with_alpha_is_unchanged() {
    let mut img: ImageBuffer<LumaA<u8>, Vec<u8>> = ImageBuffer::new(2, 2);
    img.put_pixel(0, 0, LumaA([10, 20]));
    img.put_pixel(1, 1, LumaA([200, 255]));
    let back = image::load_from_memory(&grayscale(&png_of(DynamicImage::ImageLumaA8(img.clone())))).unwrap();
    assert_eq!(back.to_luma_alpha8(), img);
}

#[test]
fn graying_twice_gives_the_same_bytes() {
    let once = grayscale(&encoded(ImageOutputFormat::Png));
    assert_eq!(grayscale_image(&once), Ok(once.clone()));
    let bmp_once = grayscale(&encoded(ImageOutputFormat::Bmp));
    assert_eq!(grayscale(&bmp_once), bmp_once);
}
