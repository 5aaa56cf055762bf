//! The pixel blend operators.  Each operator is a total function on a pair of
//! RGBA8 pixels that writes the blended pixel into the bottom one and clamps
//! every output channel to `[0, 255]`.
//!
//! The arithmetic is exact: where the formulas divide by an alpha fraction
//! `a / 255`, numerator and denominator are scaled to integers first, so each
//! channel is the floor of the exact rational value, clamped to `[0, 255]`.

use crate::buffer::Pixel;
use vstd::prelude::*;

verus! {

/// Clamps a channel value to the representable range `[0, 255]`.
pub open spec fn clamp255(x: int) -> int {
    if x < 0 {
        0
    } else if x > 255 {
        255
    } else {
        x
    }
}

/// The scaled composite alpha denominator `255*at + ab*(255 - at)`, which is
/// `255 * 255` times the alpha fraction `at/255 + ab/255 * (1 - at/255)`.
pub open spec fn alpha_den(ab: int, at: int) -> int {
    255 * at + ab * (255 - at)
}

/// The scaled source-over alpha denominator `255*ab + at*(255 - ab)`.
pub open spec fn source_den(ab: int, at: int) -> int {
    255 * ab + at * (255 - ab)
}

/// The scaled color numerator shared by `Alpha` and `SourceOver`:
/// `255 * 255 * (cb*ab/255 + ct*(at/255)*(1 - ab/255))`.
pub open spec fn over_num(cb: int, ct: int, ab: int, at: int) -> int {
    255 * cb * ab + ct * at * (255 - ab)
}

/// The scaled color numerator of `DestinationOver`, with the top pixel
/// weighted by its own alpha and the bottom by `ab/255 * (1 - at/255)`.
pub open spec fn dest_num(cb: int, ct: int, ab: int, at: int) -> int {
    255 * ct * at + cb * ab * (255 - at)
}

pub open spec fn spec_blend_alpha(bot: Pixel, top: Pixel) -> Pixel {
    let ab = bot.a as int;
    let at = top.a as int;
    let den = alpha_den(ab, at);
    let a = clamp255(den / 255) as u8;
    if den == 0 {
        Pixel { r: 0, g: 0, b: 0, a }
    } else {
        Pixel {
            r: clamp255(over_num(bot.r as int, top.r as int, ab, at) / den) as u8,
            g: clamp255(over_num(bot.g as int, top.g as int, ab, at) / den) as u8,
            b: clamp255(over_num(bot.b as int, top.b as int, ab, at) / den) as u8,
            a,
        }
    }
}

pub open spec fn spec_blend_source_over(bot: Pixel, top: Pixel) -> Pixel {
    let ab = bot.a as int;
    let at = top.a as int;
    let den = source_den(ab, at);
    let a = clamp255(den / 255) as u8;
    if den == 0 {
        Pixel { r: 0, g: 0, b: 0, a }
    } else {
        Pixel {
            r: clamp255(over_num(bot.r as int, top.r as int, ab, at) / den) as u8,
            g: clamp255(over_num(bot.g as int, top.g as int, ab, at) / den) as u8,
            b: clamp255(over_num(bot.b as int, top.b as int, ab, at) / den) as u8,
            a,
        }
    }
}

pub open spec fn spec_blend_destination_over(bot: Pixel, top: Pixel) -> Pixel {
    let ab = bot.a as int;
    let at = top.a as int;
    let den = alpha_den(ab, at);
    let a = clamp255(den / 255) as u8;
    if den == 0 {
        Pixel { r: 0, g: 0, b: 0, a }
    } else {
        Pixel {
            r: clamp255(dest_num(bot.r as int, top.r as int, ab, at) / den) as u8,
            g: clamp255(dest_num(bot.g as int, top.g as int, ab, at) / den) as u8,
            b: clamp255(dest_num(bot.b as int, top.b as int, ab, at) / den) as u8,
            a,
        }
    }
}

pub open spec fn spec_blend_multiplicative(bot: Pixel, top: Pixel) -> Pixel {
    let ab = bot.a as int;
    let at = top.a as int;
    Pixel {
        r: clamp255((bot.r as int * (255 - at) + top.r as int * at) / 255) as u8,
        g: clamp255((bot.g as int * (255 - at) + top.g as int * at) / 255) as u8,
        b: clamp255((bot.b as int * (255 - at) + top.b as int * at) / 255) as u8,
        a: clamp255(ab + at) as u8,
    }
}

pub open spec fn spec_blend_first_top(bot: Pixel, top: Pixel) -> Pixel {
    if top.a == 0 {
        bot
    } else {
        top
    }
}

pub open spec fn spec_blend_mask_top(bot: Pixel, top: Pixel) -> Pixel {
    spec_blend_first_top(bot, top)
}

pub open spec fn spec_blend_first_bottom(bot: Pixel, top: Pixel) -> Pixel {
    if bot.a == 0 {
        top
    } else {
        bot
    }
}

/// One color channel of `DisjointOver`: the top channel plus the bottom
/// channel weighted by `(1 - at/255) / (ab/255)` while coverage is disjoint,
/// and the sum of the channels at full coverage.  A zero bottom alpha would
/// divide by zero; the weight then falls back to `1 - at/255`.
pub open spec fn disjoint_over_channel(cb: int, ct: int, ab: int, at: int) -> int {
    if ab + at < 255 {
        if ab > 0 {
            clamp255(ct + (cb * (255 - at)) / ab)
        } else {
            clamp255(ct + (cb * (255 - at)) / 255)
        }
    } else {
        clamp255(ct + cb)
    }
}

pub open spec fn spec_blend_disjoint_over(bot: Pixel, top: Pixel) -> Pixel {
    let ab = bot.a as int;
    let at = top.a as int;
    Pixel {
        r: disjoint_over_channel(bot.r as int, top.r as int, ab, at) as u8,
        g: disjoint_over_channel(bot.g as int, top.g as int, ab, at) as u8,
        b: disjoint_over_channel(bot.b as int, top.b as int, ab, at) as u8,
        a: clamp255(ab + at) as u8,
    }
}

/// One color channel of `DisjointUnder`, the symmetric counterpart of
/// `DisjointOver`: the bottom channel plus the top channel weighted by
/// `(1 - ab/255) / (at/255)` while coverage is disjoint, and the sum of the
/// channels at full coverage.  A zero top alpha would divide by zero; the
/// weight then falls back to `1 - ab/255`, mirroring the guard of
/// `disjoint_over_channel`.
pub open spec fn disjoint_under_channel(cb: int, ct: int, ab: int, at: int) -> int {
    if ab + at < 255 {
        if at > 0 {
            clamp255(cb + (ct * (255 - ab)) / at)
        } else {
            clamp255(cb + (ct * (255 - ab)) / 255)
        }
    } else {
        clamp255(ct + cb)
    }
}

pub open spec fn spec_blend_disjoint_under(bot: Pixel, top: Pixel) -> Pixel {
    let ab = bot.a as int;
    let at = top.a as int;
    Pixel {
        r: disjoint_under_channel(bot.r as int, top.r as int, ab, at) as u8,
        g: disjoint_under_channel(bot.g as int, top.g as int, ab, at) as u8,
        b: disjoint_under_channel(bot.b as int, top.b as int, ab, at) as u8,
        a: clamp255(ab + at) as u8,
    }
}

/// `DisjointDebug` paints green where the alphas sum below full coverage and
/// red where they do not, with the same additive alpha as the other disjoint
/// operators.
pub open spec fn spec_blend_disjoint_debug(bot: Pixel, top: Pixel) -> Pixel {
    let ab = bot.a as int;
    let at = top.a as int;
    if ab + at < 255 {
        Pixel { r: 0, g: 255, b: 0, a: clamp255(ab + at) as u8 }
    } else {
        Pixel { r: 255, g: 0, b: 0, a: clamp255(ab + at) as u8 }
    }
}

/// Divides and clamps the quotient to `[0, 255]`.
fn div_clamp(n: u32, d: u32) -> (r: u8)
    requires
        d > 0,
    ensures
        r as int == clamp255(n as int / d as int),
{
    let q = n / d;
    if q > 255 {
        255
    } else {
        q as u8
    }
}

/// The composite alpha channel `clamp(den / 255)` for a scaled denominator.
fn alpha_out(den: u32) -> (r: u8)
    requires
        den <= 65025,
    ensures
        r as int == clamp255(den as int / 255),
{
    (den / 255) as u8
}

proof fn lemma_den_bounds(ab: int, at: int)
    requires
        0 <= ab <= 255,
        0 <= at <= 255,
    ensures
        0 <= alpha_den(ab, at) <= 65025,
        0 <= source_den(ab, at) <= 65025,
{
    assert(0 <= ab * (255 - at) <= 255 * 255) by (nonlinear_arith)
        requires
            0 <= ab <= 255,
            0 <= at <= 255,
    ;
    assert(0 <= at * (255 - ab) <= 255 * 255) by (nonlinear_arith)
        requires
            0 <= ab <= 255,
            0 <= at <= 255,
    ;
    assert(255 * at + ab * (255 - at) <= 65025) by (nonlinear_arith)
        requires
            0 <= ab <= 255,
            0 <= at <= 255,
    ;
    assert(255 * ab + at * (255 - ab) <= 65025) by (nonlinear_arith)
        requires
            0 <= ab <= 255,
            0 <= at <= 255,
    ;
}

proof fn lemma_num_bounds(cb: int, ct: int, ab: int, at: int)
    requires
        0 <= cb <= 255,
        0 <= ct <= 255,
        0 <= ab <= 255,
        0 <= at <= 255,
    ensures
        0 <= cb * ab <= 65025,
        0 <= ct * at <= 65025,
        0 <= 255 * cb * ab <= 16581375,
        0 <= ct * at * (255 - ab) <= 16581375,
        0 <= 255 * ct * at <= 16581375,
        0 <= cb * ab * (255 - at) <= 16581375,
        0 <= over_num(cb, ct, ab, at) <= 33162750,
        0 <= dest_num(cb, ct, ab, at) <= 33162750,
{
    assert(0 <= cb * ab <= 65025 && 0 <= ct * at <= 65025 && 0 <= 255 * cb * ab <= 16581375 && 0
        <= ct * at * (255 - ab) <= 16581375 && 0 <= 255 * ct * at <= 16581375 && 0 <= cb * ab * (
    255 - at) <= 16581375) by (nonlinear_arith)
        requires
            0 <= cb <= 255,
            0 <= ct <= 255,
            0 <= ab <= 255,
            0 <= at <= 255,
    ;
}

/// One color channel of `Alpha` / `SourceOver` for a precomputed denominator.
fn over_channel(cb: u8, ct: u8, ab: u8, at: u8, den: u32) -> (r: u8)
    requires
        0 < den,
    ensures
        r as int == clamp255(over_num(cb as int, ct as int, ab as int, at as int) / den as int),
{
    proof {
        lemma_num_bounds(cb as int, ct as int, ab as int, at as int);
    }
    let num = 255 * (cb as u32) * (ab as u32) + (ct as u32) * (at as u32) * (255 - (ab as u32));
    div_clamp(num, den)
}

/// One color channel of `DestinationOver` for a precomputed denominator.
fn dest_channel(cb: u8, ct: u8, ab: u8, at: u8, den: u32) -> (r: u8)
    requires
        0 < den,
    ensures
        r as int == clamp255(dest_num(cb as int, ct as int, ab as int, at as int) / den as int),
{
    proof {
        lemma_num_bounds(cb as int, ct as int, ab as int, at as int);
    }
    let num = 255 * (ct as u32) * (at as u32) + (cb as u32) * (ab as u32) * (255 - (at as u32));
    div_clamp(num, den)
}

pub fn blend_alpha(bot: &mut Pixel, top: &Pixel)
    ensures
        *final(bot) == spec_blend_alpha(*old(bot), *top),
{
    let ab = bot.a as u32;
    let at = top.a as u32;
    proof {
        lemma_den_bounds(ab as int, at as int);
    }
    let den = 255 * at + ab * (255 - at);
    let a = alpha_out(den);
    if den == 0 {
        bot.r = 0;
        bot.g = 0;
        bot.b = 0;
        bot.a = a;
    } else {
        bot.r = over_channel(bot.r, top.r, bot.a, top.a, den);
        bot.g = over_channel(bot.g, top.g, bot.a, top.a, den);
        bot.b = over_channel(bot.b, top.b, bot.a, top.a, den);
        bot.a = a;
    }
}

pub fn blend_source_over(bot: &mut Pixel, top: &Pixel)
    ensures
        *final(bot) == spec_blend_source_over(*old(bot), *top),
{
    let ab = bot.a as u32;
    let at = top.a as u32;
    proof {
        lemma_den_bounds(ab as int, at as int);
    }
    let den = 255 * ab + at * (255 - ab);
    let a = alpha_out(den);
    if den == 0 {
        bot.r = 0;
        bot.g = 0;
        bot.b = 0;
        bot.a = a;
    } else {
        bot.r = over_channel(bot.r, top.r, bot.a, top.a, den);
        bot.g = over_channel(bot.g, top.g, bot.a, top.a, den);
        bot.b = over_channel(bot.b, top.b, bot.a, top.a, den);
        bot.a = a;
    }
}

pub fn blend_destination_over(bot: &mut Pixel, top: &Pixel)
    ensures
        *final(bot) == spec_blend_destination_over(*old(bot), *top),
{
    let ab = bot.a as u32;
    let at = top.a as u32;
    proof {
        lemma_den_bounds(ab as int, at as int);
    }
    let den = 255 * at + ab * (255 - at);
    let a = alpha_out(den);
    if den == 0 {
        bot.r = 0;
        bot.g = 0;
        bot.b = 0;
        bot.a = a;
    } else {
        bot.r = dest_channel(bot.r, top.r, bot.a, top.a, den);
        bot.g = dest_channel(bot.g, top.g, bot.a, top.a, den);
        bot.b = dest_channel(bot.b, top.b, bot.a, top.a, den);
        bot.a = a;
    }
}

/// One color channel of `Multiplicative`: `cb*(1 - at/255) + ct*(at/255)`.
fn mult_channel(cb: u8, ct: u8, at: u8) -> (r: u8)
    ensures
        r as int == clamp255((cb as int * (255 - at as int) + ct as int * at as int) / 255),
{
    proof {
        assert(0 <= cb as int * (255 - at as int) <= 65025 && 0 <= ct as int * at as int
            <= 65025) by (nonlinear_arith)
            requires
                cb <= 255,
                ct <= 255,
                at <= 255,
        ;
    }
    let num = (cb as u32) * (255 - at as u32) + (ct as u32) * (at as u32);
    div_clamp(num, 255)
}

fn additive_alpha(ab: u8, at: u8) -> (r: u8)
    ensures
        r as int == clamp255(ab as int + at as int),
{
    let sum = ab as u32 + at as u32;
    if sum > 255 {
        255
    } else {
        sum as u8
    }
}

pub fn blend_multiplicative(bot: &mut Pixel, top: &Pixel)
    ensures
        *final(bot) == spec_blend_multiplicative(*old(bot), *top),
{
    let a = additive_alpha(bot.a, top.a);
    bot.r = mult_channel(bot.r, top.r, top.a);
    bot.g = mult_channel(bot.g, top.g, top.a);
    bot.b = mult_channel(bot.b, top.b, top.a);
    bot.a = a;
}

pub fn blend_first_top(bot: &mut Pixel, top: &Pixel)
    ensures
        *final(bot) == spec_blend_first_top(*old(bot), *top),
{
    if top.a != 0 {
        bot.r = top.r;
        bot.g = top.g;
        bot.b = top.b;
        bot.a = top.a;
    }
}

pub fn blend_mask_top(bot: &mut Pixel, top: &Pixel)
    ensures
        *final(bot) == spec_blend_mask_top(*old(bot), *top),
{
    blend_first_top(bot, top);
}

pub fn blend_first_bottom(bot: &mut Pixel, top: &Pixel)
    ensures
        *final(bot) == spec_blend_first_bottom(*old(bot), *top),
{
    if bot.a == 0 {
        bot.r = top.r;
        bot.g = top.g;
        bot.b = top.b;
        bot.a = top.a;
    }
}

/// Executable form of `disjoint_over_channel`.
fn disjoint_over_channel_exec(cb: u8, ct: u8, ab: u8, at: u8) -> (r: u8)
    ensures
        r as int == disjoint_over_channel(cb as int, ct as int, ab as int, at as int),
{
    proof {
        assert(0 <= cb as int * (255 - at as int) <= 65025) by (nonlinear_arith)
            requires
                cb <= 255,
                at <= 255,
        ;
    }
    if (ab as u32) + (at as u32) < 255 {
        let weighted = if ab > 0 {
            (cb as u32) * (255 - at as u32) / (ab as u32)
        } else {
            (cb as u32) * (255 - at as u32) / 255
        };
        let sum = ct as u32 + weighted;
        if sum > 255 {
            255
        } else {
            sum as u8
        }
    } else {
        additive_alpha(cb, ct)
    }
}

pub fn blend_disjoint_over(bot: &mut Pixel, top: &Pixel)
    ensures
        *final(bot) == spec_blend_disjoint_over(*old(bot), *top),
{
    let a = additive_alpha(bot.a, top.a);
    bot.r = disjoint_over_channel_exec(bot.r, top.r, bot.a, top.a);
    bot.g = disjoint_over_channel_exec(bot.g, top.g, bot.a, top.a);
    bot.b = disjoint_over_channel_exec(bot.b, top.b, bot.a, top.a);
    bot.a = a;
}

/// Executable form of `disjoint_under_channel`.
fn disjoint_under_channel_exec(cb: u8, ct: u8, ab: u8, at: u8) -> (r: u8)
    ensures
        r as int == disjoint_under_channel(cb as int, ct as int, ab as int, at as int),
{
    proof {
        assert(0 <= ct as int * (255 - ab as int) <= 65025) by (nonlinear_arith)
            requires
                ct <= 255,
                ab <= 255,
        ;
    }
    if (ab as u32) + (at as u32) < 255 {
        let weighted = if at > 0 {
            (ct as u32) * (255 - ab as u32) / (at as u32)
        } else {
            (ct as u32) * (255 - ab as u32) / 255
        };
        let sum = cb as u32 + weighted;
        if sum > 255 {
            255
        } else {
            sum as u8
        }
    } else {
        additive_alpha(cb, ct)
    }
}

pub fn blend_disjoint_under(bot: &mut Pixel, top: &Pixel)
    ensures
        *final(bot) == spec_blend_disjoint_under(*old(bot), *top),
{
    let a = additive_alpha(bot.a, top.a);
    bot.r = disjoint_under_channel_exec(bot.r, top.r, bot.a, top.a);
    bot.g = disjoint_under_channel_exec(bot.g, top.g, bot.a, top.a);
    bot.b = disjoint_under_channel_exec(bot.b, top.b, bot.a, top.a);
    bot.a = a;
}

pub fn blend_disjoint_debug(bot: &mut Pixel, top: &Pixel)
    ensures
        *final(bot) == spec_blend_disjoint_debug(*old(bot), *top),
{
    let a = additive_alpha(bot.a, top.a);
    if (bot.a as u32) + (top.a as u32) < 255 {
        bot.r = 0;
        bot.g = 255;
    } else {
        bot.r = 255;
        bot.g = 0;
    }
    bot.b = 0;
    bot.a = a;
}

} // verus!
