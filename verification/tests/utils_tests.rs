use pconvert_rust::errors::PConvertError;
use pconvert_rust::utils::{max, min};

#[test]
fn test_max_and_min_on_integers() {
    assert_eq!(max(3u32, 7u32), 7);
    assert_eq!(max(7u32, 3u32), 7);
    assert_eq!(max(5i64, 5i64), 5);
    assert_eq!(min(3u32, 7u32), 3);
    assert_eq!(min(7u32, 3u32), 3);
    assert_eq!(min(-2i32, 2i32), -2);
}

#[test]
fn test_error_messages() {
    let err = PConvertError::ArgumentError(String::from("bad input"));
    assert_eq!(err.message(), "bad input");
    assert_eq!(
        PConvertError::UnsupportedImageTypeError.message(),
        "UnsupportedImageTypeError: images should be PNGs encoded as RGBA8"
    );
    let err = PConvertError::IOError(String::from("missing file"));
    assert_eq!(err.message(), "missing file");
}

#[test]
fn test_max_and_min_on_floats() {
    assert_eq!(max(1.5f64, 2.5f64), 2.5);
    assert_eq!(min(1.5f64, 2.5f64), 1.5);
    assert_eq!(max(1.5f32, -2.5f32), 1.5);
}
