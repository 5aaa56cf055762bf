use pconvert_rust::blending::{
    blend_images, blend_pixel, demultiply_image, is_algorithm_multiplied, multiply_image,
    BlendAlgorithm,
};
use pconvert_rust::buffer::{ImageBuf, Pixel};

fn image_of(pixels: Vec<Pixel>) -> ImageBuf {
    let w = pixels.len() as u32;
    ImageBuf::from_pixels(w, 1, pixels).expect("dimensions match storage")
}

#[test]
fn test_alpha_keeps_opaque_bottom_under_transparent_top() {
    let mut bot = Pixel::new(10, 20, 30, 255);
    let top = Pixel::new(0, 0, 0, 0);
    blend_pixel(&BlendAlgorithm::Alpha, &mut bot, &top);
    assert_eq!((bot.r, bot.g, bot.b, bot.a), (10, 20, 30, 255));
}

#[test]
fn test_first_top_transparent_top_keeps_bottom() {
    let mut bot = Pixel::new(5, 5, 5, 200);
    let top = Pixel::new(90, 90, 90, 0);
    blend_pixel(&BlendAlgorithm::FirstTop, &mut bot, &top);
    assert_eq!((bot.r, bot.g, bot.b, bot.a), (5, 5, 5, 200));
}

#[test]
fn test_first_top_opaque_top_replaces_bottom() {
    let mut bot = Pixel::new(5, 5, 5, 200);
    let top = Pixel::new(1, 2, 3, 255);
    blend_pixel(&BlendAlgorithm::FirstTop, &mut bot, &top);
    assert_eq!((bot.r, bot.g, bot.b, bot.a), (1, 2, 3, 255));
}

#[test]
fn test_first_bottom_prefers_bottom_when_covered() {
    let mut bot = Pixel::new(5, 5, 5, 200);
    let top = Pixel::new(1, 2, 3, 255);
    blend_pixel(&BlendAlgorithm::FirstBottom, &mut bot, &top);
    assert_eq!((bot.r, bot.g, bot.b, bot.a), (5, 5, 5, 200));

    let mut empty_bot = Pixel::new(7, 7, 7, 0);
    blend_pixel(&BlendAlgorithm::FirstBottom, &mut empty_bot, &top);
    assert_eq!(
        (empty_bot.r, empty_bot.g, empty_bot.b, empty_bot.a),
        (1, 2, 3, 255)
    );
}

#[test]
fn test_multiplicative_exact_value() {
    let mut bot = Pixel::new(100, 100, 100, 100);
    let top = Pixel::new(50, 50, 50, 128);
    blend_pixel(&BlendAlgorithm::Multiplicative, &mut bot, &top);
    // (100 * (255 - 128) + 50 * 128) / 255 = 19100 / 255 = 74, alpha saturates at 100 + 128
    assert_eq!((bot.r, bot.g, bot.b, bot.a), (74, 74, 74, 228));
}

#[test]
fn test_source_over_paints_onto_empty_bottom() {
    let mut bot = Pixel::new(0, 0, 0, 0);
    let top = Pixel::new(10, 20, 30, 255);
    blend_pixel(&BlendAlgorithm::SourceOver, &mut bot, &top);
    assert_eq!((bot.r, bot.g, bot.b, bot.a), (10, 20, 30, 255));
}

#[test]
fn test_destination_over_keeps_opaque_top() {
    let mut bot = Pixel::new(0, 0, 0, 0);
    let top = Pixel::new(10, 20, 30, 255);
    blend_pixel(&BlendAlgorithm::DestinationOver, &mut bot, &top);
    assert_eq!((bot.r, bot.g, bot.b, bot.a), (10, 20, 30, 255));
}

#[test]
fn test_disjoint_over_exact_values() {
    // disjoint coverage divides the bottom weight by the bottom alpha:
    // 30 + 50 * (255 - 100) / 100 = 107
    let mut p = Pixel::new(50, 0, 0, 100);
    blend_pixel(&BlendAlgorithm::DisjointOver, &mut p, &Pixel::new(30, 0, 0, 100));
    assert_eq!((p.r, p.g, p.b, p.a), (107, 0, 0, 200));
    // full coverage adds the channels
    let mut q = Pixel::new(40, 0, 0, 200);
    blend_pixel(&BlendAlgorithm::DisjointOver, &mut q, &Pixel::new(100, 0, 0, 100));
    assert_eq!((q.r, q.g, q.b, q.a), (140, 0, 0, 255));
}

#[test]
fn test_disjoint_under_exact_values() {
    // disjoint coverage divides the top weight by the top alpha:
    // 50 + 30 * (255 - 100) / 100 = 96
    let mut p = Pixel::new(50, 0, 0, 100);
    blend_pixel(&BlendAlgorithm::DisjointUnder, &mut p, &Pixel::new(30, 0, 0, 100));
    assert_eq!((p.r, p.g, p.b, p.a), (96, 0, 0, 200));
    // full coverage adds the channels even though both alphas are positive
    let mut q = Pixel::new(0, 0, 0, 200);
    blend_pixel(&BlendAlgorithm::DisjointUnder, &mut q, &Pixel::new(100, 0, 0, 100));
    assert_eq!((q.r, q.g, q.b, q.a), (100, 0, 0, 255));
    // a zero top alpha falls back to the plain weight:
    // 50 + 30 * (255 - 100) / 255 = 68
    let mut z = Pixel::new(50, 0, 0, 100);
    blend_pixel(&BlendAlgorithm::DisjointUnder, &mut z, &Pixel::new(30, 0, 0, 0));
    assert_eq!((z.r, z.g, z.b, z.a), (68, 0, 0, 100));
}

#[test]
fn test_disjoint_debug_marks_coverage() {
    let mut low = Pixel::new(1, 2, 3, 100);
    blend_pixel(&BlendAlgorithm::DisjointDebug, &mut low, &Pixel::new(4, 5, 6, 100));
    assert_eq!((low.r, low.g, low.b, low.a), (0, 255, 0, 200));

    let mut high = Pixel::new(1, 2, 3, 200);
    blend_pixel(&BlendAlgorithm::DisjointDebug, &mut high, &Pixel::new(4, 5, 6, 200));
    assert_eq!((high.r, high.g, high.b, high.a), (255, 0, 0, 255));
}

#[test]
fn test_all_algorithms_clamp_channels() {
    // extreme inputs: every output channel must stay a valid byte
    let samples = [
        Pixel::new(255, 255, 255, 255),
        Pixel::new(255, 0, 255, 1),
        Pixel::new(0, 255, 0, 254),
        Pixel::new(128, 64, 32, 0),
    ];
    for alg in BlendAlgorithm::all() {
        for bot in &samples {
            for top in &samples {
                let mut p = *bot;
                blend_pixel(&alg, &mut p, top);
                // the channels are bytes by construction; check they are
                // meaningful by re-blending, which must not panic either
                let mut q = p;
                blend_pixel(&alg, &mut q, &p);
            }
        }
    }
}

#[test]
fn test_demultiply_exact_values() {
    let mut img = image_of(vec![Pixel::new(100, 150, 200, 128)]);
    demultiply_image(&mut img);
    let p = img.pixel(0);
    // round(c * 128 / 255) per channel, alpha kept
    assert_eq!((p.r, p.g, p.b, p.a), (50, 75, 100, 128));
}

#[test]
fn test_multiply_demultiply_roundtrip_within_one() {
    for a in [85u8, 128, 200, 254, 255] {
        let original = vec![
            Pixel::new(0, 1, 2, a),
            Pixel::new(100, 150, 200, a),
            Pixel::new(253, 254, 255, a),
        ];
        let mut img = image_of(original.clone());
        demultiply_image(&mut img);
        multiply_image(&mut img);
        for (i, p) in original.iter().enumerate() {
            let q = img.pixel(i);
            assert!((q.r as i32 - p.r as i32).abs() <= 1);
            assert!((q.g as i32 - p.g as i32).abs() <= 1);
            assert!((q.b as i32 - p.b as i32).abs() <= 1);
            assert_eq!(q.a, p.a);
        }
    }
}

#[test]
fn test_algorithm_names_roundtrip() {
    for alg in BlendAlgorithm::all() {
        let parsed = BlendAlgorithm::from_str(alg.name()).expect("canonical name parses");
        assert_eq!(parsed, alg);
    }
}

#[test]
fn test_from_str_rejects_unknown_name() {
    let err = BlendAlgorithm::from_str("sharpen").unwrap_err();
    assert_eq!(err, "sharpen");
}

#[test]
fn test_is_algorithm_multiplied_only_for_disjoint_family() {
    assert!(is_algorithm_multiplied(&BlendAlgorithm::DisjointOver));
    assert!(is_algorithm_multiplied(&BlendAlgorithm::DisjointUnder));
    assert!(is_algorithm_multiplied(&BlendAlgorithm::DisjointDebug));
    assert!(!is_algorithm_multiplied(&BlendAlgorithm::Alpha));
    assert!(!is_algorithm_multiplied(&BlendAlgorithm::Multiplicative));
    assert!(!is_algorithm_multiplied(&BlendAlgorithm::SourceOver));
    assert!(!is_algorithm_multiplied(&BlendAlgorithm::DestinationOver));
    assert!(!is_algorithm_multiplied(&BlendAlgorithm::MaskTop));
    assert!(!is_algorithm_multiplied(&BlendAlgorithm::FirstTop));
    assert!(!is_algorithm_multiplied(&BlendAlgorithm::FirstBottom));
}

#[test]
fn test_blend_images_zips_to_shorter_top() {
    let mut bot = image_of(vec![Pixel::new(5, 5, 5, 200), Pixel::new(8, 8, 8, 100)]);
    let top = image_of(vec![Pixel::new(1, 2, 3, 255)]);
    blend_images(&mut bot, &top, &BlendAlgorithm::FirstTop);
    let p0 = bot.pixel(0);
    let p1 = bot.pixel(1);
    assert_eq!((p0.r, p0.g, p0.b, p0.a), (1, 2, 3, 255));
    // the second bottom pixel has no top counterpart and is kept
    assert_eq!((p1.r, p1.g, p1.b, p1.a), (8, 8, 8, 100));
}
