use pconvert_rust::blending::BlendAlgorithm;
use pconvert_rust::buffer::{ImageBuf, Pixel};
use pconvert_rust::codec::{encode_png, Compression, FilterMode};
use pconvert_rust::compose::{
    apply_blue_filter, apply_blue_filter_image, blend_image_buffers, blend_multiple_buffers,
    build_algorithm, compose, compose_file_name, Background,
};
use pconvert_rust::errors::PConvertError;

fn solid(w: u32, h: u32, p: Pixel) -> ImageBuf {
    let pixels = vec![p; (w * h) as usize];
    ImageBuf::from_pixels(w, h, pixels).expect("dimensions match storage")
}

fn pixels_of(img: &ImageBuf) -> Vec<(u8, u8, u8, u8)> {
    let mut v = Vec::new();
    for i in 0..img.len() {
        let p = img.pixel(i);
        v.push((p.r, p.g, p.b, p.a));
    }
    v
}

#[test]
fn test_compose_first_top_keeps_last_covering_layer() {
    let layers = vec![
        solid(1, 1, Pixel::new(1, 1, 1, 255)),
        solid(1, 1, Pixel::new(2, 2, 2, 255)),
    ];
    let background = solid(1, 1, Pixel::new(9, 9, 9, 255));
    let out = compose(&layers, &BlendAlgorithm::FirstTop, background);
    assert_eq!(pixels_of(&out), vec![(2, 2, 2, 255)]);
}

#[test]
fn test_compose_alpha_transparent_layers_leave_background() {
    let layers = vec![
        solid(2, 2, Pixel::new(10, 10, 10, 0)),
        solid(2, 2, Pixel::new(20, 20, 20, 0)),
    ];
    let background = solid(2, 2, Pixel::new(7, 8, 9, 255));
    let out = compose(&layers, &BlendAlgorithm::Alpha, background);
    assert_eq!(pixels_of(&out), vec![(7, 8, 9, 255); 4]);
}

#[test]
fn test_compose_matches_pool_ordered_retrieval() {
    // the parallel path hands back the decoded layers in submission order,
    // whatever order the workers finished in; composing that list must give
    // a byte-identical buffer to the sequential path
    let layers: Vec<ImageBuf> = (0..4u8)
        .map(|i| solid(2, 1, Pixel::new(10 * i, 5 * i, i, 60 * i)))
        .collect();
    let background = solid(2, 1, Pixel::new(200, 200, 200, 255));

    // simulate out-of-order completion: results arrive 2, 0, 3, 1 but are
    // collected by task index
    let mut pool = pconvert_rust::parallelism::ThreadPool::new(2).unwrap();
    pool.start();
    let mut ids = Vec::new();
    for _ in 0..layers.len() {
        ids.push(pool.execute());
    }
    let mut delivered: Vec<Option<ImageBuf>> = layers.iter().map(|_| None).collect();
    for &i in &[2usize, 0, 3, 1] {
        pool.claim_task(ids[i]);
        pool.finish_task(
            ids[i],
            pconvert_rust::parallelism::ResultMessage::ImageResult(Ok(layers[i].clone())),
        );
        let pconvert_rust::parallelism::ResultMessage::ImageResult(res) =
            pool.take_result(ids[i]);
        delivered[i] = Some(res.unwrap());
    }
    let pool_layers: Vec<ImageBuf> = delivered.into_iter().map(|o| o.unwrap()).collect();

    let sequential = compose(&layers, &BlendAlgorithm::DisjointOver, background.clone());
    let pooled = compose(&pool_layers, &BlendAlgorithm::DisjointOver, background);
    assert_eq!(pixels_of(&sequential), pixels_of(&pooled));

    let bytes_seq = encode_png(&sequential, Compression::Fast, FilterMode::NoFilter).unwrap();
    let bytes_pool = encode_png(&pooled, Compression::Fast, FilterMode::NoFilter).unwrap();
    assert_eq!(bytes_seq, bytes_pool);
}

#[test]
fn test_compose_disjoint_over_applies_premultiply_bracket() {
    // an opaque layer passes through the demultiply/multiply bracket
    // unchanged; the background blend then adds the disjoint channels
    let layers = vec![solid(1, 1, Pixel::new(100, 100, 100, 255))];
    let background = solid(1, 1, Pixel::new(10, 10, 10, 100));
    let out = compose(&layers, &BlendAlgorithm::DisjointOver, background);
    assert_eq!(pixels_of(&out), vec![(110, 110, 110, 255)]);
}

#[test]
fn test_blend_multiple_buffers_single_algorithm() {
    let buffers = vec![
        solid(1, 1, Pixel::new(1, 1, 1, 255)),
        solid(1, 1, Pixel::new(2, 2, 2, 255)),
        solid(1, 1, Pixel::new(3, 3, 3, 255)),
    ];
    let out =
        blend_multiple_buffers(buffers, Some(String::from("first_top")), None, None).unwrap();
    assert_eq!(pixels_of(&out), vec![(3, 3, 3, 255)]);
}

#[test]
fn test_blend_multiple_buffers_defaults_to_multiplicative() {
    let buffers = vec![
        solid(1, 1, Pixel::new(100, 100, 100, 100)),
        solid(1, 1, Pixel::new(50, 50, 50, 128)),
    ];
    let out = blend_multiple_buffers(buffers, None, None, None).unwrap();
    assert_eq!(pixels_of(&out), vec![(74, 74, 74, 228)]);
}

#[test]
fn test_blend_multiple_buffers_per_step_algorithms() {
    let buffers = vec![
        solid(1, 1, Pixel::new(1, 1, 1, 255)),
        solid(1, 1, Pixel::new(2, 2, 2, 0)),
        solid(1, 1, Pixel::new(3, 3, 3, 255)),
    ];
    let names = vec![String::from("first_top"), String::from("first_top")];
    let out = blend_multiple_buffers(buffers, None, Some(names), None).unwrap();
    assert_eq!(pixels_of(&out), vec![(3, 3, 3, 255)]);
}

#[test]
fn test_blend_multiple_buffers_rejects_empty_input() {
    let err = blend_multiple_buffers(Vec::new(), None, None, None).unwrap_err();
    assert!(matches!(err, PConvertError::ArgumentError(_)));
}

#[test]
fn test_blend_multiple_buffers_rejects_wrong_algorithm_count() {
    let buffers = vec![
        solid(1, 1, Pixel::new(1, 1, 1, 255)),
        solid(1, 1, Pixel::new(2, 2, 2, 255)),
    ];
    let names = vec![String::from("alpha"), String::from("alpha")];
    let err = blend_multiple_buffers(buffers, None, Some(names), None).unwrap_err();
    assert!(matches!(err, PConvertError::ArgumentError(_)));
}

#[test]
fn test_blend_multiple_buffers_rejects_unknown_algorithm() {
    let buffers = vec![
        solid(1, 1, Pixel::new(1, 1, 1, 255)),
        solid(1, 1, Pixel::new(2, 2, 2, 255)),
    ];
    let err = blend_multiple_buffers(buffers, Some(String::from("sharpen")), None, None)
        .unwrap_err();
    match err {
        PConvertError::ArgumentError(m) => assert_eq!(m, "Invalid algorithm 'sharpen'"),
        other => panic!("unexpected error {:?}", other),
    }
}

#[test]
fn test_blend_image_buffers_blends_in_place() {
    let mut bot = solid(1, 1, Pixel::new(5, 5, 5, 200));
    let mut top = solid(1, 1, Pixel::new(1, 2, 3, 255));
    blend_image_buffers(&mut bot, &mut top, Some(String::from("first_top")), None).unwrap();
    assert_eq!(pixels_of(&bot), vec![(1, 2, 3, 255)]);
}

#[test]
fn test_build_algorithm_maps_unknown_name_to_argument_error() {
    assert!(matches!(
        build_algorithm(&String::from("alpha")),
        Ok(BlendAlgorithm::Alpha)
    ));
    let err = build_algorithm(&String::from("nope")).unwrap_err();
    assert!(matches!(err, PConvertError::ArgumentError(_)));
}

#[test]
fn test_apply_blue_filter_pixel_and_image() {
    let mut p = Pixel::new(200, 100, 50, 255);
    apply_blue_filter(&mut p);
    assert_eq!((p.r, p.g, p.b, p.a), (0, 50, 50, 255));

    let mut img = solid(2, 1, Pixel::new(9, 1, 7, 31));
    apply_blue_filter_image(&mut img);
    assert_eq!(pixels_of(&img), vec![(0, 7, 7, 31); 2]);
}

#[test]
fn test_compose_file_name_encodes_settings() {
    let name = compose_file_name(
        &BlendAlgorithm::Alpha,
        &Background::White,
        Compression::Fast,
        FilterMode::NoFilter,
    );
    assert_eq!(name, "result_alpha_white_Fast_NoFilter.png");

    let name = compose_file_name(
        &BlendAlgorithm::DisjointOver,
        &Background::Texture,
        Compression::Best,
        FilterMode::Paeth,
    );
    assert_eq!(name, "result_disjoint_over_texture_Best_Paeth.png");
}

#[test]
fn test_background_names() {
    assert_eq!(Background::Alpha.name(), "alpha");
    assert_eq!(Background::White.name(), "white");
    assert_eq!(Background::Blue.name(), "blue");
    assert_eq!(Background::Texture.name(), "texture");
}
