//! Blending algorithm selection, the per-image blend loop, and the
//! premultiplied-alpha bracket.

use crate::algorithms::{
    blend_alpha, blend_destination_over, blend_disjoint_debug, blend_disjoint_over,
    blend_disjoint_under, blend_first_bottom, blend_first_top, blend_mask_top,
    blend_multiplicative, blend_source_over, clamp255, spec_blend_alpha,
    spec_blend_destination_over, spec_blend_disjoint_debug, spec_blend_disjoint_over,
    spec_blend_disjoint_under, spec_blend_first_bottom, spec_blend_first_top, spec_blend_mask_top,
    spec_blend_multiplicative, spec_blend_source_over,
};
use crate::buffer::{ImageBuf, Pixel};
use crate::utils::str_eq;
use vstd::arithmetic::div_mod::{
    lemma_div_is_ordered, lemma_fundamental_div_mod, lemma_fundamental_div_mod_converse_div,
    lemma_mod_bound,
};
use vstd::prelude::*;

verus! {

/// Enumeration of supported blending modes.
#[derive(Clone, Copy, PartialEq, Eq, Structural, Debug)]
pub enum BlendAlgorithm {
    Alpha,
    Multiplicative,
    SourceOver,
    DestinationOver,
    MaskTop,
    FirstTop,
    FirstBottom,
    DisjointOver,
    DisjointUnder,
    DisjointDebug,
}

/// The canonical lowercase snake_case name of each algorithm.
pub open spec fn spec_algorithm_name(alg: BlendAlgorithm) -> Seq<char> {
    match alg {
        BlendAlgorithm::Alpha => "alpha"@,
        BlendAlgorithm::Multiplicative => "multiplicative"@,
        BlendAlgorithm::SourceOver => "source_over"@,
        BlendAlgorithm::DestinationOver => "destination_over"@,
        BlendAlgorithm::MaskTop => "mask_top"@,
        BlendAlgorithm::FirstTop => "first_top"@,
        BlendAlgorithm::FirstBottom => "first_bottom"@,
        BlendAlgorithm::DisjointOver => "disjoint_over"@,
        BlendAlgorithm::DisjointUnder => "disjoint_under"@,
        BlendAlgorithm::DisjointDebug => "disjoint_debug"@,
    }
}

/// The algorithm a canonical name denotes, if any.
pub open spec fn spec_parse_algorithm(s: Seq<char>) -> Option<BlendAlgorithm> {
    if s == "alpha"@ {
        Some(BlendAlgorithm::Alpha)
    } else if s == "multiplicative"@ {
        Some(BlendAlgorithm::Multiplicative)
    } else if s == "source_over"@ {
        Some(BlendAlgorithm::SourceOver)
    } else if s == "destination_over"@ {
        Some(BlendAlgorithm::DestinationOver)
    } else if s == "mask_top"@ {
        Some(BlendAlgorithm::MaskTop)
    } else if s == "first_top"@ {
        Some(BlendAlgorithm::FirstTop)
    } else if s == "first_bottom"@ {
        Some(BlendAlgorithm::FirstBottom)
    } else if s == "disjoint_over"@ {
        Some(BlendAlgorithm::DisjointOver)
    } else if s == "disjoint_under"@ {
        Some(BlendAlgorithm::DisjointUnder)
    } else if s == "disjoint_debug"@ {
        Some(BlendAlgorithm::DisjointDebug)
    } else {
        None
    }
}

impl BlendAlgorithm {
    /// Parses a canonical algorithm name; an unknown name is handed back as
    /// the error value.
    pub fn from_str(s: &str) -> (r: Result<BlendAlgorithm, String>)
        ensures
            match spec_parse_algorithm(s@) {
                Some(alg) => r matches Ok(a) && a == alg,
                None => r matches Err(e) && e@ == s@,
            },
    {
        if str_eq(s, "alpha") {
            Ok(BlendAlgorithm::Alpha)
        } else if str_eq(s, "multiplicative") {
            Ok(BlendAlgorithm::Multiplicative)
        } else if str_eq(s, "source_over") {
            Ok(BlendAlgorithm::SourceOver)
        } else if str_eq(s, "destination_over") {
            Ok(BlendAlgorithm::DestinationOver)
        } else if str_eq(s, "mask_top") {
            Ok(BlendAlgorithm::MaskTop)
        } else if str_eq(s, "first_top") {
            Ok(BlendAlgorithm::FirstTop)
        } else if str_eq(s, "first_bottom") {
            Ok(BlendAlgorithm::FirstBottom)
        } else if str_eq(s, "disjoint_over") {
            Ok(BlendAlgorithm::DisjointOver)
        } else if str_eq(s, "disjoint_under") {
            Ok(BlendAlgorithm::DisjointUnder)
        } else if str_eq(s, "disjoint_debug") {
            Ok(BlendAlgorithm::DisjointDebug)
        } else {
            Err(s.to_owned())
        }
    }

    /// The canonical name of this algorithm.
    pub fn name(&self) -> (r: &'static str)
        ensures
            r@ == spec_algorithm_name(*self),
    {
        match self {
            BlendAlgorithm::Alpha => "alpha",
            BlendAlgorithm::Multiplicative => "multiplicative",
            BlendAlgorithm::SourceOver => "source_over",
            BlendAlgorithm::DestinationOver => "destination_over",
            BlendAlgorithm::MaskTop => "mask_top",
            BlendAlgorithm::FirstTop => "first_top",
            BlendAlgorithm::FirstBottom => "first_bottom",
            BlendAlgorithm::DisjointOver => "disjoint_over",
            BlendAlgorithm::DisjointUnder => "disjoint_under",
            BlendAlgorithm::DisjointDebug => "disjoint_debug",
        }
    }

    /// Every algorithm, in declaration order; convenient for exhaustive
    /// callers.
    pub fn all() -> (v: Vec<BlendAlgorithm>)
        ensures
            v@ == seq![
                BlendAlgorithm::Alpha,
                BlendAlgorithm::Multiplicative,
                BlendAlgorithm::SourceOver,
                BlendAlgorithm::DestinationOver,
                BlendAlgorithm::MaskTop,
                BlendAlgorithm::FirstTop,
                BlendAlgorithm::FirstBottom,
                BlendAlgorithm::DisjointOver,
                BlendAlgorithm::DisjointUnder,
                BlendAlgorithm::DisjointDebug,
            ],
    {
        let mut v: Vec<BlendAlgorithm> = Vec::new();
        v.push(BlendAlgorithm::Alpha);
        v.push(BlendAlgorithm::Multiplicative);
        v.push(BlendAlgorithm::SourceOver);
        v.push(BlendAlgorithm::DestinationOver);
        v.push(BlendAlgorithm::MaskTop);
        v.push(BlendAlgorithm::FirstTop);
        v.push(BlendAlgorithm::FirstBottom);
        v.push(BlendAlgorithm::DisjointOver);
        v.push(BlendAlgorithm::DisjointUnder);
        v.push(BlendAlgorithm::DisjointDebug);
        proof {
            assert(v@ =~= seq![
                BlendAlgorithm::Alpha,
                BlendAlgorithm::Multiplicative,
                BlendAlgorithm::SourceOver,
                BlendAlgorithm::DestinationOver,
                BlendAlgorithm::MaskTop,
                BlendAlgorithm::FirstTop,
                BlendAlgorithm::FirstBottom,
                BlendAlgorithm::DisjointOver,
                BlendAlgorithm::DisjointUnder,
                BlendAlgorithm::DisjointDebug,
            ]);
        }
        v
    }
}

/// The name table is a bijection: parsing the canonical name of an algorithm
/// yields that algorithm back, so no two algorithms share a name.
pub proof fn lemma_algorithm_name_bijective(alg: BlendAlgorithm)
    ensures
        spec_parse_algorithm(spec_algorithm_name(alg)) == Some(alg),
{
    reveal_strlit("alpha");
    reveal_strlit("multiplicative");
    reveal_strlit("source_over");
    reveal_strlit("destination_over");
    reveal_strlit("mask_top");
    reveal_strlit("first_top");
    reveal_strlit("first_bottom");
    reveal_strlit("disjoint_over");
    reveal_strlit("disjoint_under");
    reveal_strlit("disjoint_debug");
    assert("alpha"@.len() == 5);
    assert("multiplicative"@.len() == 14);
    assert("source_over"@.len() == 11);
    assert("destination_over"@.len() == 16);
    assert("mask_top"@.len() == 8);
    assert("first_top"@.len() == 9);
    assert("first_bottom"@.len() == 12);
    assert("disjoint_over"@.len() == 13);
    assert("disjoint_under"@.len() == 14);
    assert("disjoint_debug"@.len() == 14);
    assert("multiplicative"@[0] == 'm');
    assert("disjoint_under"@[0] == 'd');
    assert("disjoint_debug"@[0] == 'd');
    assert("disjoint_under"@[9] == 'u');
    assert("disjoint_debug"@[9] == 'd');
}

/// The other direction of the bijection: a string that parses at all is the
/// canonical name of the algorithm it parses to.
pub proof fn lemma_algorithm_parse_name_inverse(s: Seq<char>)
    requires
        spec_parse_algorithm(s) is Some,
    ensures
        spec_algorithm_name(spec_parse_algorithm(s).unwrap()) == s,
{
}

/// Whether an algorithm operates on premultiplied input, so that the
/// composition pipeline must demultiply its layers first and re-multiply the
/// final accumulator.
pub open spec fn spec_is_algorithm_multiplied(alg: BlendAlgorithm) -> bool {
    match alg {
        BlendAlgorithm::DisjointOver => true,
        BlendAlgorithm::DisjointUnder => true,
        BlendAlgorithm::DisjointDebug => true,
        _ => false,
    }
}

/// Returns whether or not a `BlendAlgorithm` enum variant corresponds to a
/// multiplied blending algorithm.
pub fn is_algorithm_multiplied(algorithm: &BlendAlgorithm) -> (r: bool)
    ensures
        r == spec_is_algorithm_multiplied(*algorithm),
{
    match algorithm {
        BlendAlgorithm::Alpha => false,
        BlendAlgorithm::Multiplicative => false,
        BlendAlgorithm::SourceOver => false,
        BlendAlgorithm::DestinationOver => false,
        BlendAlgorithm::MaskTop => false,
        BlendAlgorithm::FirstTop => false,
        BlendAlgorithm::FirstBottom => false,
        BlendAlgorithm::DisjointOver => true,
        BlendAlgorithm::DisjointUnder => true,
        BlendAlgorithm::DisjointDebug => true,
    }
}

/// The pixel an algorithm produces from a bottom and a top pixel.
pub open spec fn spec_blend_pixel(alg: BlendAlgorithm, bot: Pixel, top: Pixel) -> Pixel {
    match alg {
        BlendAlgorithm::Alpha => spec_blend_alpha(bot, top),
        BlendAlgorithm::Multiplicative => spec_blend_multiplicative(bot, top),
        BlendAlgorithm::SourceOver => spec_blend_source_over(bot, top),
        BlendAlgorithm::DestinationOver => spec_blend_destination_over(bot, top),
        BlendAlgorithm::MaskTop => spec_blend_mask_top(bot, top),
        BlendAlgorithm::FirstTop => spec_blend_first_top(bot, top),
        BlendAlgorithm::FirstBottom => spec_blend_first_bottom(bot, top),
        BlendAlgorithm::DisjointOver => spec_blend_disjoint_over(bot, top),
        BlendAlgorithm::DisjointUnder => spec_blend_disjoint_under(bot, top),
        BlendAlgorithm::DisjointDebug => spec_blend_disjoint_debug(bot, top),
    }
}

/// Applies the selected operator to one pixel pair, writing the blended pixel
/// into the bottom one.
pub fn blend_pixel(algorithm: &BlendAlgorithm, bot: &mut Pixel, top: &Pixel)
    ensures
        *final(bot) == spec_blend_pixel(*algorithm, *old(bot), *top),
{
    match algorithm {
        BlendAlgorithm::Alpha => blend_alpha(bot, top),
        BlendAlgorithm::Multiplicative => blend_multiplicative(bot, top),
        BlendAlgorithm::SourceOver => blend_source_over(bot, top),
        BlendAlgorithm::DestinationOver => blend_destination_over(bot, top),
        BlendAlgorithm::MaskTop => blend_mask_top(bot, top),
        BlendAlgorithm::FirstTop => blend_first_top(bot, top),
        BlendAlgorithm::FirstBottom => blend_first_bottom(bot, top),
        BlendAlgorithm::DisjointOver => blend_disjoint_over(bot, top),
        BlendAlgorithm::DisjointUnder => blend_disjoint_under(bot, top),
        BlendAlgorithm::DisjointDebug => blend_disjoint_debug(bot, top),
    }
}

/// Clamp invariant: for every algorithm and every pixel pair, each output
/// channel lies in `[0, 255]`.
pub proof fn lemma_blend_pixel_channels_in_range(alg: BlendAlgorithm, bot: Pixel, top: Pixel)
    ensures
        0 <= spec_blend_pixel(alg, bot, top).r <= 255,
        0 <= spec_blend_pixel(alg, bot, top).g <= 255,
        0 <= spec_blend_pixel(alg, bot, top).b <= 255,
        0 <= spec_blend_pixel(alg, bot, top).a <= 255,
{
}

/// Blending a whole image pair: each pixel of the bottom buffer is blended
/// with the pixel of the top buffer at the same position; where the top
/// buffer is shorter, the bottom pixel is kept.
pub open spec fn spec_blend_images(bot: Seq<Pixel>, top: Seq<Pixel>, alg: BlendAlgorithm) -> Seq<
    Pixel,
> {
    bot.map(
        |i: int, p: Pixel|
            if i < top.len() {
                spec_blend_pixel(alg, p, top[i])
            } else {
                p
            },
    )
}

/// Blends two image buffers with the given blending algorithm, writing the
/// result into the bottom buffer.
///
/// The bottom buffer corresponds to the current composition accumulator and
/// the top buffer to the layer blended onto it.
pub fn blend_images(bot: &mut ImageBuf, top: &ImageBuf, algorithm: &BlendAlgorithm)
    ensures
        final(bot)@ == spec_blend_images(old(bot)@, top@, *algorithm),
        final(bot).spec_width() == old(bot).spec_width(),
        final(bot).spec_height() == old(bot).spec_height(),
{
    let n = if bot.len() < top.len() {
        bot.len()
    } else {
        top.len()
    };
    let mut i: usize = 0;
    while i < n
        invariant
            n <= old(bot)@.len(),
            n <= top@.len(),
            n == if old(bot)@.len() < top@.len() {
                old(bot)@.len()
            } else {
                top@.len()
            },
            i <= n,
            bot@.len() == old(bot)@.len(),
            bot.spec_width() == old(bot).spec_width(),
            bot.spec_height() == old(bot).spec_height(),
            forall|j: int|
                0 <= j < i ==> bot@[j] == spec_blend_pixel(*algorithm, old(bot)@[j], top@[j]),
            forall|j: int| i <= j < bot@.len() ==> bot@[j] == old(bot)@[j],
        decreases n - i,
    {
        let mut p = bot.pixel(i);
        let t = top.pixel(i);
        blend_pixel(algorithm, &mut p, &t);
        bot.set_pixel(i, p);
        i = i + 1;
    }
    proof {
        assert(final(bot)@ =~= spec_blend_images(old(bot)@, top@, *algorithm));
    }
}

/// The demultiply transform of one channel: `round(c * a/255)`, written over
/// integers as a rounded division by 255.
pub open spec fn spec_demultiply_channel(c: int, a: int) -> int {
    (c * a + 127) / 255
}

/// The multiply transform of one channel: `round(c * 255/a)`, clamped to the
/// channel range.  With a zero alpha the reference formula divides by zero
/// and its saturating float-to-byte cast turns the quotient into 0 for a zero
/// channel and 255 otherwise; that behaviour is reproduced exactly.
pub open spec fn spec_multiply_channel(c: int, a: int) -> int {
    if a == 0 {
        if c == 0 {
            0
        } else {
            255
        }
    } else {
        clamp255((2 * (c * 255) + a) / (2 * a))
    }
}

/// Straight-alpha to premultiplied: every color channel is scaled by the
/// alpha fraction; the alpha channel is kept.
pub open spec fn spec_demultiply_pixel(p: Pixel) -> Pixel {
    Pixel {
        r: spec_demultiply_channel(p.r as int, p.a as int) as u8,
        g: spec_demultiply_channel(p.g as int, p.a as int) as u8,
        b: spec_demultiply_channel(p.b as int, p.a as int) as u8,
        a: p.a,
    }
}

/// Premultiplied back to straight alpha.
pub open spec fn spec_multiply_pixel(p: Pixel) -> Pixel {
    Pixel {
        r: spec_multiply_channel(p.r as int, p.a as int) as u8,
        g: spec_multiply_channel(p.g as int, p.a as int) as u8,
        b: spec_multiply_channel(p.b as int, p.a as int) as u8,
        a: p.a,
    }
}

fn demultiply_channel(c: u8, a: u8) -> (r: u8)
    ensures
        r as int == spec_demultiply_channel(c as int, a as int),
{
    proof {
        assert(0 <= c as int * (a as int) <= 65025) by (nonlinear_arith)
            requires
                c <= 255,
                a <= 255,
        ;
        lemma_div_is_ordered(c as int * (a as int) + 127, 65152, 255);
    }
    ((c as u32 * a as u32 + 127) / 255) as u8
}

fn multiply_channel(c: u8, a: u8) -> (r: u8)
    ensures
        r as int == spec_multiply_channel(c as int, a as int),
{
    if a == 0 {
        if c == 0 {
            0
        } else {
            255
        }
    } else {
        let q = (2 * (c as u32 * 255) + a as u32) / (2 * a as u32);
        if q > 255 {
            255
        } else {
            q as u8
        }
    }
}

pub(crate) fn demultiply_pixel(pixel: &mut Pixel)
    ensures
        *final(pixel) == spec_demultiply_pixel(*old(pixel)),
{
    pixel.r = demultiply_channel(pixel.r, pixel.a);
    pixel.g = demultiply_channel(pixel.g, pixel.a);
    pixel.b = demultiply_channel(pixel.b, pixel.a);
}

fn multiply_pixel(pixel: &mut Pixel)
    ensures
        *final(pixel) == spec_multiply_pixel(*old(pixel)),
{
    pixel.r = multiply_channel(pixel.r, pixel.a);
    pixel.g = multiply_channel(pixel.g, pixel.a);
    pixel.b = multiply_channel(pixel.b, pixel.a);
}

/// Demultiplies an image buffer, by applying the demultiply operation over
/// the complete set of pixels in the provided image buffer.
pub fn demultiply_image(img: &mut ImageBuf)
    ensures
        final(img)@ == old(img)@.map_values(|p: Pixel| spec_demultiply_pixel(p)),
        final(img).spec_width() == old(img).spec_width(),
        final(img).spec_height() == old(img).spec_height(),
{
    let n = img.len();
    let mut i: usize = 0;
    while i < n
        invariant
            n == old(img)@.len(),
            i <= n,
            img@.len() == n,
            img.spec_width() == old(img).spec_width(),
            img.spec_height() == old(img).spec_height(),
            forall|j: int| 0 <= j < i ==> img@[j] == spec_demultiply_pixel(old(img)@[j]),
            forall|j: int| i <= j < n ==> img@[j] == old(img)@[j],
        decreases n - i,
    {
        let mut p = img.pixel(i);
        demultiply_pixel(&mut p);
        img.set_pixel(i, p);
        i = i + 1;
    }
    proof {
        assert(final(img)@ =~= old(img)@.map_values(|p: Pixel| spec_demultiply_pixel(p)));
    }
}

/// Multiplies an image buffer, running the opposite operation over the
/// complete set of pixels in the image buffer.
pub fn multiply_image(img: &mut ImageBuf)
    ensures
        final(img)@ == old(img)@.map_values(|p: Pixel| spec_multiply_pixel(p)),
        final(img).spec_width() == old(img).spec_width(),
        final(img).spec_height() == old(img).spec_height(),
{
    let n = img.len();
    let mut i: usize = 0;
    while i < n
        invariant
            n == old(img)@.len(),
            i <= n,
            img@.len() == n,
            img.spec_width() == old(img).spec_width(),
            img.spec_height() == old(img).spec_height(),
            forall|j: int| 0 <= j < i ==> img@[j] == spec_multiply_pixel(old(img)@[j]),
            forall|j: int| i <= j < n ==> img@[j] == old(img)@[j],
        decreases n - i,
    {
        let mut p = img.pixel(i);
        multiply_pixel(&mut p);
        img.set_pixel(i, p);
        i = i + 1;
    }
    proof {
        assert(final(img)@ =~= old(img)@.map_values(|p: Pixel| spec_multiply_pixel(p)));
    }
}

/// A layer as the pipeline hands it to an operator: demultiplied first when
/// the operator works on premultiplied input.
pub open spec fn spec_prepared(layer: Seq<Pixel>, demultiply: bool) -> Seq<Pixel> {
    if demultiply {
        layer.map_values(|p: Pixel| spec_demultiply_pixel(p))
    } else {
        layer
    }
}

/// Round-trip bound for one channel: multiplying a demultiplied channel
/// reproduces it within one, provided the alpha is at least 85 so that the
/// rounding error of the demultiply step cannot be magnified past one.
proof fn lemma_channel_roundtrip(c: int, a: int)
    requires
        0 <= c <= 255,
        85 <= a <= 255,
    ensures
        0 <= spec_demultiply_channel(c, a) <= 255,
        c - 1 <= spec_multiply_channel(spec_demultiply_channel(c, a), a) <= c + 1,
        0 <= spec_multiply_channel(spec_demultiply_channel(c, a), a) <= 255,
{
    let d = spec_demultiply_channel(c, a);
    lemma_fundamental_div_mod(c * a + 127, 255);
    lemma_mod_bound(c * a + 127, 255);
    assert(c * a - 127 <= 255 * d <= c * a + 127);
    assert(0 <= d <= 255) by {
        assert(0 <= c * a <= 65025) by (nonlinear_arith)
            requires
                0 <= c <= 255,
                0 <= a <= 255,
        ;
    };
    let n = 2 * (d * 255) + a;
    let q = n / (2 * a);
    // lower bound: 2a(c-1) <= n, and a multiple of 2a divides back out
    assert(2 * a * (c - 1) <= n) by (nonlinear_arith)
        requires
            n == 2 * (d * 255) + a,
            c * a - 127 <= 255 * d,
            85 <= a,
    ;
    lemma_div_is_ordered(2 * a * (c - 1), n, 2 * a);
    assert(2 * a * (c - 1) == (c - 1) * (2 * a)) by (nonlinear_arith);
    lemma_fundamental_div_mod_converse_div((c - 1) * (2 * a), 2 * a, c - 1, 0);
    assert(c - 1 <= q);
    // upper bound: n <= 2a(c+2) - 1, whose quotient by 2a is c+1
    assert(n <= 2 * a * (c + 2) - 1) by (nonlinear_arith)
        requires
            n == 2 * (d * 255) + a,
            255 * d <= c * a + 127,
            85 <= a,
    ;
    lemma_div_is_ordered(n, 2 * a * (c + 2) - 1, 2 * a);
    assert(2 * a * (c + 2) - 1 == (c + 1) * (2 * a) + (2 * a - 1)) by (nonlinear_arith);
    lemma_fundamental_div_mod_converse_div((c + 1) * (2 * a) + (2 * a - 1), 2 * a, c + 1, 2 * a - 1);
    assert(q <= c + 1);
    assert(spec_multiply_channel(d, a) == clamp255(q));
}

/// Round-trip law: `multiply_image(demultiply_image(img))` reproduces the
/// image within one per color channel and exactly on alpha.  The law is
/// stated for pixels whose alpha is at least 85: below that the demultiply
/// step can collapse distinct channels (alpha 1 sends channel 100 to 0, and
/// no multiply step can recover it), so the bound fails there.
pub proof fn lemma_multiply_demultiply_roundtrip(p: Pixel)
    requires
        p.a >= 85,
    ensures
        ({
            let q = spec_multiply_pixel(spec_demultiply_pixel(p));
            &&& q.a == p.a
            &&& p.r - 1 <= q.r <= p.r + 1
            &&& p.g - 1 <= q.g <= p.g + 1
            &&& p.b - 1 <= q.b <= p.b + 1
        }),
{
    lemma_channel_roundtrip(p.r as int, p.a as int);
    lemma_channel_roundtrip(p.g as int, p.a as int);
    lemma_channel_roundtrip(p.b as int, p.a as int);
}

} // verus!
