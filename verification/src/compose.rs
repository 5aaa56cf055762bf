//! The composition pipeline: folds an ordered stack of layers through one
//! blend operator, with the premultiply bracket the operator calls for, and
//! blends the result over a background layer.

use crate::blending::{
    blend_images, demultiply_pixel, is_algorithm_multiplied, multiply_image, spec_algorithm_name,
    spec_blend_images, spec_demultiply_pixel, spec_is_algorithm_multiplied, spec_multiply_pixel,
    spec_parse_algorithm, spec_prepared, BlendAlgorithm,
};
use crate::buffer::{ImageBuf, Pixel};
use crate::codec::{spec_compression_name, spec_filter_name, Compression, FilterMode};
use crate::errors::PConvertError;
use vstd::prelude::*;

verus! {

/// Enumeration of the selectable background layers.
#[derive(Clone, Copy, PartialEq, Eq, Structural, Debug)]
pub enum Background {
    Alpha,
    White,
    Blue,
    Texture,
}

/// The canonical lowercase name of each background variant, as used in the
/// background layer's file name.
pub open spec fn spec_background_name(b: Background) -> Seq<char> {
    match b {
        Background::Alpha => "alpha"@,
        Background::White => "white"@,
        Background::Blue => "blue"@,
        Background::Texture => "texture"@,
    }
}

impl Background {
    /// The canonical name of this background variant.
    pub fn name(&self) -> (r: &'static str)
        ensures
            r@ == spec_background_name(*self),
    {
        match self {
            Background::Alpha => "alpha",
            Background::White => "white",
            Background::Blue => "blue",
            Background::Texture => "texture",
        }
    }
}

/// The accumulator after folding the first `i` layers of the stack: the
/// first layer, then each later layer blended onto the accumulator in stack
/// order, every layer prepared by the same demultiply choice.
pub open spec fn spec_fold_upto(
    layers: Seq<Seq<Pixel>>,
    alg: BlendAlgorithm,
    demultiply: bool,
    i: int,
) -> Seq<Pixel>
    decreases i,
{
    if i <= 1 {
        spec_prepared(layers[0], demultiply)
    } else {
        spec_blend_images(
            spec_fold_upto(layers, alg, demultiply, i - 1),
            spec_prepared(layers[i - 1], demultiply),
            alg,
        )
    }
}

/// The composed output of the pipeline: the layer stack folded in order,
/// re-multiplied when the operator works premultiplied, and blended onto the
/// background layer (which is never demultiplied) as the final step.
pub open spec fn spec_compose(
    layers: Seq<Seq<Pixel>>,
    alg: BlendAlgorithm,
    background: Seq<Pixel>,
) -> Seq<Pixel> {
    let demultiply = spec_is_algorithm_multiplied(alg);
    let acc = spec_fold_upto(layers, alg, demultiply, layers.len() as int);
    let acc2 = if demultiply {
        acc.map_values(|p: Pixel| spec_multiply_pixel(p))
    } else {
        acc
    };
    spec_blend_images(background, acc2, alg)
}

/// A fresh copy of a layer, demultiplied on the way when requested.
fn prepared_copy(layer: &ImageBuf, demultiply: bool) -> (r: ImageBuf)
    requires
        layer.wf(),
    ensures
        r@ == spec_prepared(layer@, demultiply),
        r.spec_width() == layer.spec_width(),
        r.spec_height() == layer.spec_height(),
        r.wf(),
{
    let n = layer.len();
    let mut pixels: Vec<Pixel> = Vec::new();
    let mut i: usize = 0;
    while i < n
        invariant
            n == layer@.len(),
            i <= n,
            pixels@.len() == i,
            forall|j: int|
                0 <= j < i ==> pixels@[j] == (if demultiply {
                    spec_demultiply_pixel(layer@[j])
                } else {
                    layer@[j]
                }),
        decreases n - i,
    {
        let mut p = layer.pixel(i);
        if demultiply {
            demultiply_pixel(&mut p);
        }
        pixels.push(p);
        i = i + 1;
    }
    proof {
        assert(pixels@ =~= spec_prepared(layer@, demultiply));
    }
    ImageBuf::from_pixels_exact(layer.width(), layer.height(), pixels)
}

/// Composes an ordered, non-empty stack of layers over a background using
/// one blend operator.
///
/// The layers are folded in the order given; when the operator works on
/// premultiplied input every layer is demultiplied first and the accumulator
/// re-multiplied after the fold; the background is blended last and is never
/// demultiplied.
pub fn compose(layers: &Vec<ImageBuf>, algorithm: &BlendAlgorithm, background: ImageBuf) -> (r:
    ImageBuf)
    requires
        layers@.len() >= 1,
        forall|i: int| 0 <= i < layers@.len() ==> (#[trigger] layers@[i]).wf(),
    ensures
        r@ == spec_compose(layers@.map_values(|l: ImageBuf| l@), *algorithm, background@),
        r.spec_width() == background.spec_width(),
        r.spec_height() == background.spec_height(),
        background.wf() ==> r.wf(),
{
    let ghost views = layers@.map_values(|l: ImageBuf| l@);
    let demultiply = is_algorithm_multiplied(algorithm);
    let n = layers.len();
    let mut acc = prepared_copy(&layers[0], demultiply);
    let mut i: usize = 1;
    while i < n
        invariant
            1 <= i <= n,
            n == layers@.len(),
            views == layers@.map_values(|l: ImageBuf| l@),
            demultiply == spec_is_algorithm_multiplied(*algorithm),
            forall|k: int| 0 <= k < layers@.len() ==> (#[trigger] layers@[k]).wf(),
            acc@ == spec_fold_upto(views, *algorithm, demultiply, i as int),
        decreases n - i,
    {
        let layer = prepared_copy(&layers[i], demultiply);
        blend_images(&mut acc, &layer, algorithm);
        i = i + 1;
    }
    if demultiply {
        multiply_image(&mut acc);
    }
    let mut composition = background;
    blend_images(&mut composition, &acc, algorithm);
    composition
}

/// Order independence of the concurrency strategy: the composed output is a
/// function of the ordered layer stack and the algorithm alone, so a pool
/// that loads layers in any completion order but hands them back in stack
/// order yields the very output the sequential path computes.
pub proof fn lemma_composition_schedule_independent(
    layers_seq: Seq<Seq<Pixel>>,
    layers_pool: Seq<Seq<Pixel>>,
    alg: BlendAlgorithm,
    background_seq: Seq<Pixel>,
    background_pool: Seq<Pixel>,
)
    requires
        layers_pool =~~= layers_seq,
        background_pool =~= background_seq,
    ensures
        spec_compose(layers_pool, alg, background_pool) == spec_compose(
            layers_seq,
            alg,
            background_seq,
        ),
{
    assert(layers_pool == layers_seq);
    assert(background_pool == background_seq);
}

/// The pixel grids of a sequence of image buffers.
pub open spec fn spec_views(bufs: Seq<ImageBuf>) -> Seq<Seq<Pixel>> {
    bufs.map_values(|l: ImageBuf| l@)
}

/// Whether every name in the list denotes an algorithm.
pub open spec fn spec_all_names_valid(names: Seq<Seq<char>>) -> bool {
    forall|i: int| 0 <= i < names.len() ==> spec_parse_algorithm(#[trigger] names[i]) is Some
}

/// The algorithms a list of valid names denotes.
pub open spec fn spec_parsed_names(names: Seq<Seq<char>>) -> Seq<BlendAlgorithm> {
    names.map_values(|s: Seq<char>| spec_parse_algorithm(s).unwrap())
}

/// The accumulator after folding the first `i` layers, each blend step using
/// its own algorithm (`algs[k]` blends layer `k+1` onto the accumulator);
/// each layer is demultiplied exactly when the algorithm of its step works
/// premultiplied, the first layer going by the first step's algorithm.
pub open spec fn spec_multi_upto(
    layers: Seq<Seq<Pixel>>,
    algs: Seq<BlendAlgorithm>,
    i: int,
) -> Seq<Pixel>
    decreases i,
{
    if i <= 1 {
        spec_prepared(
            layers[0],
            if algs.len() > 0 {
                spec_is_algorithm_multiplied(algs[0])
            } else {
                false
            },
        )
    } else {
        spec_blend_images(
            spec_multi_upto(layers, algs, i - 1),
            spec_prepared(layers[i - 1], spec_is_algorithm_multiplied(algs[i - 2])),
            algs[i - 2],
        )
    }
}

/// The output of blending a non-empty stack with one algorithm per step.
/// Unlike `spec_compose` there is no background layer and no re-multiply of
/// the final accumulator.
pub open spec fn spec_blend_multiple(layers: Seq<Seq<Pixel>>, algs: Seq<BlendAlgorithm>) -> Seq<
    Pixel,
> {
    spec_multi_upto(layers, algs, layers.len() as int)
}

/// Attempts to parse a `&String` to a `BlendAlgorithm`.  Returns the enum
/// variant if it succeeds; otherwise an `ArgumentError` naming the rejected
/// input.
pub fn build_algorithm(algorithm: &String) -> (r: Result<BlendAlgorithm, PConvertError>)
    ensures
        match spec_parse_algorithm(algorithm@) {
            Some(a) => r matches Ok(x) && x == a,
            None => r matches Err(PConvertError::ArgumentError(m)) && m@ == "Invalid algorithm '"@
                + algorithm@ + "'"@,
        },
{
    match BlendAlgorithm::from_str(algorithm.as_str()) {
        Ok(a) => Ok(a),
        Err(name) => Err(
            PConvertError::ArgumentError(
                String::from_str("Invalid algorithm '").concat(name.as_str()).concat("'"),
            ),
        ),
    }
}

/// Blends two image buffers in place using the named algorithm (default
/// `multiplicative`): both buffers are demultiplied first when the algorithm
/// works premultiplied, then the top buffer is blended into the bottom one.
pub fn blend_image_buffers(
    bot: &mut ImageBuf,
    top: &mut ImageBuf,
    algorithm: Option<String>,
    is_inline: Option<bool>,
) -> (r: Result<(), PConvertError>)
    ensures
        ({
            let name_view = match algorithm {
                Some(s) => s@,
                None => "multiplicative"@,
            };
            match spec_parse_algorithm(name_view) {
                Some(alg) => {
                    let d = spec_is_algorithm_multiplied(alg);
                    &&& r is Ok
                    &&& final(top)@ == spec_prepared(old(top)@, d)
                    &&& final(bot)@ == spec_blend_images(
                        spec_prepared(old(bot)@, d),
                        spec_prepared(old(top)@, d),
                        alg,
                    )
                    &&& final(bot).spec_width() == old(bot).spec_width()
                    &&& final(bot).spec_height() == old(bot).spec_height()
                },
                None => {
                    &&& r matches Err(PConvertError::ArgumentError(_))
                    &&& *final(bot) == *old(bot)
                    &&& *final(top) == *old(top)
                },
            }
        }),
{
    let name = match &algorithm {
        Some(s) => s.clone(),
        None => String::from_str("multiplicative"),
    };
    let alg = match build_algorithm(&name) {
        Ok(a) => a,
        Err(e) => {
            return Err(e);
        },
    };
    let demultiply = is_algorithm_multiplied(&alg);
    if demultiply {
        crate::blending::demultiply_image(bot);
        crate::blending::demultiply_image(top);
    }
    blend_images(bot, top, &alg);
    Ok(())
}

/// Blends a non-empty stack of image buffers into one, either with one
/// algorithm for every step (`algorithm`, default `multiplicative`) or with
/// one named algorithm per step (`algorithms`, which must hold exactly one
/// name per blending operation).
#[verifier::loop_isolation(false)]
pub fn blend_multiple_buffers(
    image_buffers: Vec<ImageBuf>,
    algorithm: Option<String>,
    algorithms: Option<Vec<String>>,
    is_inline: Option<bool>,
) -> (r: Result<ImageBuf, PConvertError>)
    requires
        forall|i: int| 0 <= i < image_buffers@.len() ==> (#[trigger] image_buffers@[i]).wf(),
    ensures
        ({
            let n = image_buffers@.len();
            let views = spec_views(image_buffers@);
            if n == 0 {
                r matches Err(PConvertError::ArgumentError(_))
            } else {
                match algorithms {
                    Some(names) => {
                        let name_views = names@.map_values(|s: String| s@);
                        if names@.len() != n - 1 {
                            r matches Err(PConvertError::ArgumentError(_))
                        } else if !spec_all_names_valid(name_views) {
                            r matches Err(PConvertError::ArgumentError(_))
                        } else {
                            r matches Ok(img) && img.wf() && img@ == spec_blend_multiple(
                                views,
                                spec_parsed_names(name_views),
                            )
                        }
                    },
                    None => {
                        let name_view = match algorithm {
                            Some(s) => s@,
                            None => "multiplicative"@,
                        };
                        match spec_parse_algorithm(name_view) {
                            Some(alg) => r matches Ok(img) && img.wf() && img@
                                == spec_blend_multiple(
                                views,
                                Seq::new((n - 1) as nat, |i: int| alg),
                            ),
                            None => r matches Err(PConvertError::ArgumentError(_)),
                        }
                    },
                }
            }
        }),
{
    let num_images = image_buffers.len();
    if num_images < 1 {
        return Err(
            PConvertError::ArgumentError(
                String::from_str("'images' must contain at least one path"),
            ),
        );
    }
    let mut algs: Vec<BlendAlgorithm> = Vec::new();
    match &algorithms {
        Some(names) => {
            if names.len() != num_images - 1 {
                return Err(
                    PConvertError::ArgumentError(
                        String::from_str(
                            "'algorithms' must hold one name per blending operation",
                        ),
                    ),
                );
            }
            let mut j: usize = 0;
            while j < names.len()
                invariant
                    j <= names@.len(),
                    algs@.len() == j,
                    forall|k: int|
                        0 <= k < j ==> spec_parse_algorithm((#[trigger] names@[k])@) == Some(
                            algs@[k],
                        ),
                decreases names@.len() - j,
            {
                match build_algorithm(&names[j]) {
                    Ok(a) => {
                        algs.push(a);
                    },
                    Err(e) => {
                        proof {
                            let name_views = names@.map_values(|s: String| s@);
                            assert(name_views[j as int] == names@[j as int]@);
                            assert(!spec_all_names_valid(name_views));
                        }
                        return Err(e);
                    },
                }
                j = j + 1;
            }
            proof {
                let name_views = names@.map_values(|s: String| s@);
                assert(spec_all_names_valid(name_views));
                assert(algs@ =~= spec_parsed_names(name_views));
            }
        },
        None => {
            let name = match &algorithm {
                Some(s) => s.clone(),
                None => String::from_str("multiplicative"),
            };
            let alg = match build_algorithm(&name) {
                Ok(a) => a,
                Err(e) => {
                    return Err(e);
                },
            };
            let mut j: usize = 0;
            while j < num_images - 1
                invariant
                    j <= num_images - 1,
                    algs@.len() == j,
                    forall|k: int| 0 <= k < j ==> algs@[k] == alg,
                decreases num_images - 1 - j,
            {
                algs.push(alg);
                j = j + 1;
            }
            proof {
                assert(algs@ =~= Seq::new((num_images - 1) as nat, |i: int| alg));
            }
        },
    }
    let ghost views = spec_views(image_buffers@);
    let first_demultiply = if algs.len() > 0 {
        is_algorithm_multiplied(&algs[0])
    } else {
        false
    };
    let mut composition = prepared_copy(&image_buffers[0], first_demultiply);
    let mut i: usize = 1;
    while i < num_images
        invariant
            1 <= i <= num_images,
            num_images == image_buffers@.len(),
            algs@.len() == num_images - 1,
            views == spec_views(image_buffers@),
            forall|k: int| 0 <= k < image_buffers@.len() ==> (#[trigger] image_buffers@[k]).wf(),
            composition.wf(),
            composition@ == spec_multi_upto(views, algs@, i as int),
        decreases num_images - i,
    {
        let step_alg = algs[i - 1];
        let layer = prepared_copy(&image_buffers[i], is_algorithm_multiplied(&step_alg));
        blend_images(&mut composition, &layer, &step_alg);
        i = i + 1;
    }
    Ok(composition)
}

/// The output file name of a composition: it encodes the algorithm, the
/// background and the compression and filter settings that produced it.
pub fn compose_file_name(
    algorithm: &BlendAlgorithm,
    background: &Background,
    compression: Compression,
    filter: FilterMode,
) -> (r: String)
    ensures
        r@ == "result_"@ + spec_algorithm_name(*algorithm) + "_"@ + spec_background_name(
            *background,
        ) + "_"@ + spec_compression_name(compression) + "_"@ + spec_filter_name(filter) + ".png"@,
{
    let mut name = String::from_str("result_");
    name.append(algorithm.name());
    name.append("_");
    name.append(background.name());
    name.append("_");
    name.append(compression.name());
    name.append("_");
    name.append(filter.name());
    name.append(".png");
    name
}

/// Testing utility that applies a blue-ish filter to a pixel: the red value
/// drops to zero and the green value takes the blue one.
pub fn apply_blue_filter(pixel: &mut Pixel)
    ensures
        *final(pixel) == (Pixel { r: 0, g: old(pixel).b, b: old(pixel).b, a: old(pixel).a }),
{
    pixel.r = 0;
    pixel.g = pixel.b;
}

/// Applies the blue filter to every pixel of an image buffer.
pub fn apply_blue_filter_image(img: &mut ImageBuf)
    ensures
        final(img)@ == old(img)@.map_values(
            |p: Pixel| Pixel { r: 0, g: p.b, b: p.b, a: p.a },
        ),
        final(img).spec_width() == old(img).spec_width(),
        final(img).spec_height() == old(img).spec_height(),
{
    let n = img.len();
    let mut i: usize = 0;
    while i < n
        invariant
            n == old(img)@.len(),
            i <= n,
            img@.len() == n,
            img.spec_width() == old(img).spec_width(),
            img.spec_height() == old(img).spec_height(),
            forall|j: int|
                0 <= j < i ==> img@[j] == (Pixel {
                    r: 0,
                    g: old(img)@[j].b,
                    b: old(img)@[j].b,
                    a: old(img)@[j].a,
                }),
            forall|j: int| i <= j < n ==> img@[j] == old(img)@[j],
        decreases n - i,
    {
        let mut p = img.pixel(i);
        apply_blue_filter(&mut p);
        img.set_pixel(i, p);
        i = i + 1;
    }
    proof {
        assert(final(img)@ =~= old(img)@.map_values(
            |p: Pixel| Pixel { r: 0, g: p.b, b: p.b, a: p.a },
        ));
    }
}

} // verus!
