use pconvert_rust::blending::demultiply_image;
use pconvert_rust::buffer::{ImageBuf, Pixel};
use pconvert_rust::codec::{
    decode_png, encode_png, encode_png_parallel, image_compression_from, image_filter_from,
    Compression, FilterMode,
};
use pconvert_rust::errors::PConvertError;

fn sample_image() -> ImageBuf {
    ImageBuf::from_pixels(
        2,
        2,
        vec![
            Pixel::new(255, 0, 0, 255),
            Pixel::new(0, 255, 0, 128),
            Pixel::new(0, 0, 255, 64),
            Pixel::new(10, 20, 30, 0),
        ],
    )
    .unwrap()
}

fn pixels_of(img: &ImageBuf) -> Vec<(u8, u8, u8, u8)> {
    let mut v = Vec::new();
    for i in 0..img.len() {
        let p = img.pixel(i);
        v.push((p.r, p.g, p.b, p.a));
    }
    v
}

#[test]
fn test_image_compression_from_known_names() {
    assert_eq!(image_compression_from("best"), Compression::Best);
    assert_eq!(image_compression_from("default"), Compression::Default);
    assert_eq!(image_compression_from("fast"), Compression::Fast);
    assert_eq!(image_compression_from("huffman"), Compression::Huffman);
    assert_eq!(image_compression_from("rle"), Compression::Rle);
}

#[test]
fn test_image_compression_from_normalizes_and_defaults() {
    assert_eq!(image_compression_from("  Best \t"), Compression::Best);
    assert_eq!(image_compression_from("DEFAULT"), Compression::Default);
    assert_eq!(image_compression_from("unknown"), Compression::Fast);
    assert_eq!(image_compression_from(""), Compression::Fast);
}

#[test]
fn test_image_filter_from_known_names() {
    assert_eq!(image_filter_from("avg"), FilterMode::Avg);
    assert_eq!(image_filter_from("nofilter"), FilterMode::NoFilter);
    assert_eq!(image_filter_from("paeth"), FilterMode::Paeth);
    assert_eq!(image_filter_from("sub"), FilterMode::Sub);
    assert_eq!(image_filter_from("up"), FilterMode::Up);
}

#[test]
fn test_image_filter_from_normalizes_and_defaults() {
    assert_eq!(image_filter_from(" NoFilter "), FilterMode::NoFilter);
    assert_eq!(image_filter_from("PAETH"), FilterMode::Paeth);
    assert_eq!(image_filter_from("gaussian"), FilterMode::NoFilter);
}

#[test]
fn test_encode_decode_roundtrip() {
    let img = sample_image();
    let bytes = encode_png(&img, Compression::Fast, FilterMode::NoFilter).unwrap();
    // a PNG stream is a real encoding, not the raw pixel grid
    assert_ne!(bytes.len(), 16);
    let decoded = decode_png(&bytes, false).unwrap();
    assert_eq!(decoded.width(), 2);
    assert_eq!(decoded.height(), 2);
    assert_eq!(pixels_of(&decoded), pixels_of(&img));
}

#[test]
fn test_encode_decode_roundtrip_all_settings() {
    let img = sample_image();
    for compression in [
        Compression::Best,
        Compression::Default,
        Compression::Fast,
        Compression::Huffman,
        Compression::Rle,
    ] {
        for filter in [
            FilterMode::Avg,
            FilterMode::NoFilter,
            FilterMode::Paeth,
            FilterMode::Sub,
            FilterMode::Up,
        ] {
            let bytes = encode_png(&img, compression, filter).unwrap();
            let decoded = decode_png(&bytes, false).unwrap();
            assert_eq!(pixels_of(&decoded), pixels_of(&img));
        }
    }
}

#[test]
fn test_parallel_encoder_roundtrip() {
    let img = sample_image();
    let bytes = encode_png_parallel(&img, Compression::Fast, FilterMode::NoFilter).unwrap();
    let decoded = decode_png(&bytes, false).unwrap();
    assert_eq!(decoded.width(), 2);
    assert_eq!(decoded.height(), 2);
    assert_eq!(pixels_of(&decoded), pixels_of(&img));
}

#[test]
fn test_decode_png_demultiplies_on_request() {
    let img = sample_image();
    let bytes = encode_png(&img, Compression::Fast, FilterMode::NoFilter).unwrap();
    let decoded = decode_png(&bytes, true).unwrap();
    let mut expected = img;
    demultiply_image(&mut expected);
    assert_eq!(pixels_of(&decoded), pixels_of(&expected));
}

#[test]
fn test_decode_png_rejects_garbage() {
    let err = decode_png(&[1, 2, 3, 4, 5], false).unwrap_err();
    assert!(matches!(err, PConvertError::ImageLibError(_)));
}

#[test]
fn test_decode_png_rejects_non_rgba_png() {
    // encode an RGB (no alpha) PNG with the codec crate directly; the
    // library only accepts RGBA8 input
    let mut bytes: Vec<u8> = Vec::new();
    let encoder = image::codecs::png::PngEncoder::new(&mut bytes);
    image::ImageEncoder::write_image(encoder, &[1, 2, 3], 1, 1, image::ColorType::Rgb8).unwrap();
    let err = decode_png(&bytes, false).unwrap_err();
    assert!(matches!(err, PConvertError::UnsupportedImageTypeError));
}
