//! The PNG codec boundary: compression and filter settings with verified
//! name parsing, pixel/byte grid conversions, and trusted wrappers around
//! the PNG decoder and the two PNG encoders of the codec crates.

use crate::blending::{demultiply_image, spec_prepared};
use crate::buffer::{ImageBuf, Pixel};
use crate::errors::PConvertError;
use vstd::prelude::*;
use vstd::string::StringSliceAdditionalSpecFns;

verus! {

/// Compression presets forwarded to the PNG encoder.
#[derive(Clone, Copy, PartialEq, Eq, Structural, Debug)]
pub enum Compression {
    Best,
    Default,
    Fast,
    Huffman,
    Rle,
}

/// Filter presets forwarded to the PNG encoder.
#[derive(Clone, Copy, PartialEq, Eq, Structural, Debug)]
pub enum FilterMode {
    Avg,
    NoFilter,
    Paeth,
    Sub,
    Up,
}

/// The display name of each compression preset, as used in result file
/// names.
pub open spec fn spec_compression_name(c: Compression) -> Seq<char> {
    match c {
        Compression::Best => "Best"@,
        Compression::Default => "Default"@,
        Compression::Fast => "Fast"@,
        Compression::Huffman => "Huffman"@,
        Compression::Rle => "Rle"@,
    }
}

/// The display name of each filter preset.
pub open spec fn spec_filter_name(f: FilterMode) -> Seq<char> {
    match f {
        FilterMode::Avg => "Avg"@,
        FilterMode::NoFilter => "NoFilter"@,
        FilterMode::Paeth => "Paeth"@,
        FilterMode::Sub => "Sub"@,
        FilterMode::Up => "Up"@,
    }
}

impl Compression {
    pub fn name(&self) -> (r: &'static str)
        ensures
            r@ == spec_compression_name(*self),
    {
        match self {
            Compression::Best => "Best",
            Compression::Default => "Default",
            Compression::Fast => "Fast",
            Compression::Huffman => "Huffman",
            Compression::Rle => "Rle",
        }
    }
}

impl FilterMode {
    pub fn name(&self) -> (r: &'static str)
        ensures
            r@ == spec_filter_name(*self),
    {
        match self {
            FilterMode::Avg => "Avg",
            FilterMode::NoFilter => "NoFilter",
            FilterMode::Paeth => "Paeth",
            FilterMode::Sub => "Sub",
            FilterMode::Up => "Up",
        }
    }
}

/// A small integer standing for each compression preset, used to state what
/// the encoder produces over plain values.
pub open spec fn compression_code(c: Compression) -> int {
    match c {
        Compression::Best => 0,
        Compression::Default => 1,
        Compression::Fast => 2,
        Compression::Huffman => 3,
        Compression::Rle => 4,
    }
}

/// A small integer standing for each filter preset.
pub open spec fn filter_code(f: FilterMode) -> int {
    match f {
        FilterMode::Avg => 0,
        FilterMode::NoFilter => 1,
        FilterMode::Paeth => 2,
        FilterMode::Sub => 3,
        FilterMode::Up => 4,
    }
}

/// ASCII whitespace, as trimmed from setting names.
pub open spec fn spec_ascii_ws(c: u8) -> bool {
    c == 32 || c == 9 || c == 10 || c == 11 || c == 12 || c == 13
}

/// ASCII lowercasing of one byte; other bytes pass unchanged.
pub open spec fn spec_lower_byte(c: u8) -> u8 {
    if 65 <= c <= 90 {
        (c + 32) as u8
    } else {
        c
    }
}

pub open spec fn spec_trim_front(b: Seq<u8>) -> Seq<u8>
    decreases b.len(),
{
    if b.len() > 0 && spec_ascii_ws(b[0]) {
        spec_trim_front(b.drop_first())
    } else {
        b
    }
}

pub open spec fn spec_trim_back(b: Seq<u8>) -> Seq<u8>
    decreases b.len(),
{
    if b.len() > 0 && spec_ascii_ws(b.last()) {
        spec_trim_back(b.drop_last())
    } else {
        b
    }
}

/// A setting name normalized the way the parser reads it: ASCII whitespace
/// trimmed from both ends and ASCII letters lowercased.
pub open spec fn spec_normalize(b: Seq<u8>) -> Seq<u8> {
    spec_trim_back(spec_trim_front(b)).map_values(|c: u8| spec_lower_byte(c))
}

proof fn lemma_trim_front_is_subrange(b: Seq<u8>, k: int)
    requires
        0 <= k <= b.len(),
        forall|j: int| 0 <= j < k ==> spec_ascii_ws(#[trigger] b[j]),
        k == b.len() || !spec_ascii_ws(b[k]),
    ensures
        spec_trim_front(b) == b.subrange(k, b.len() as int),
    decreases k,
{
    if k == 0 {
        assert(b.subrange(0, b.len() as int) =~= b);
    } else {
        lemma_trim_front_is_subrange(b.drop_first(), k - 1);
        assert(b.drop_first().subrange(k - 1, b.drop_first().len() as int) =~= b.subrange(
            k,
            b.len() as int,
        ));
    }
}

proof fn lemma_trim_back_is_subrange(b: Seq<u8>, k: int)
    requires
        0 <= k <= b.len(),
        forall|j: int| k <= j < b.len() ==> spec_ascii_ws(#[trigger] b[j]),
        k == 0 || !spec_ascii_ws(b[k - 1]),
    ensures
        spec_trim_back(b) == b.subrange(0, k),
    decreases b.len(),
{
    if k == b.len() {
        assert(b.subrange(0, k) =~= b);
    } else {
        lemma_trim_back_is_subrange(b.drop_last(), k);
        assert(b.drop_last().subrange(0, k) =~= b.subrange(0, k));
    }
}

fn is_ascii_ws(c: u8) -> (r: bool)
    ensures
        r == spec_ascii_ws(c),
{
    c == 32 || c == 9 || c == 10 || c == 11 || c == 12 || c == 13
}

fn lower_byte(c: u8) -> (r: u8)
    ensures
        r == spec_lower_byte(c),
{
    if 65 <= c && c <= 90 {
        c + 32
    } else {
        c
    }
}

/// The normalized form of a setting name, byte by byte.
#[verifier::loop_isolation(false)]
fn normalize_key(s: &str) -> (v: Vec<u8>)
    ensures
        v@ == spec_normalize(s.spec_bytes()),
{
    let b = s.as_bytes();
    let n = b.len();
    let mut start: usize = 0;
    while start < n && is_ascii_ws(b[start])
        invariant
            start <= n,
            forall|j: int| 0 <= j < start ==> spec_ascii_ws(#[trigger] b@[j]),
        decreases n - start,
    {
        start = start + 1;
    }
    let mut end: usize = n;
    while end > start && is_ascii_ws(b[end - 1])
        invariant
            start <= end <= n,
            forall|j: int| end <= j < n ==> spec_ascii_ws(#[trigger] b@[j]),
        decreases end,
    {
        end = end - 1;
    }
    let mut v: Vec<u8> = Vec::new();
    let mut i: usize = start;
    while i < end
        invariant
            start <= i <= end,
            v@.len() == i - start,
            forall|j: int| 0 <= j < v@.len() ==> v@[j] == spec_lower_byte(b@[start + j]),
        decreases end - i,
    {
        v.push(lower_byte(b[i]));
        i = i + 1;
    }
    proof {
        lemma_trim_front_is_subrange(b@, start as int);
        let trimmed_front = b@.subrange(start as int, n as int);
        lemma_trim_back_is_subrange(trimmed_front, end - start);
        assert(trimmed_front.subrange(0, end - start) =~= b@.subrange(start as int, end as int));
        assert(v@ =~= b@.subrange(start as int, end as int).map_values(
            |c: u8| spec_lower_byte(c),
        ));
    }
    v
}

/// Whether a byte vector holds exactly the bytes of a string slice.
#[verifier::loop_isolation(false)]
fn bytes_eq_str(v: &Vec<u8>, s: &str) -> (r: bool)
    ensures
        r == (v@ == s.spec_bytes()),
{
    let b = s.as_bytes();
    if v.len() != b.len() {
        return false;
    }
    let mut i: usize = 0;
    while i < v.len()
        invariant
            i <= v@.len(),
            forall|j: int| 0 <= j < i ==> v@[j] == b@[j],
        decreases v@.len() - i,
    {
        if v[i] != b[i] {
            return false;
        }
        i = i + 1;
    }
    proof {
        assert(v@ =~= b@);
    }
    true
}

/// The compression preset a normalized name denotes; unknown names select
/// the fast preset.
pub open spec fn spec_compression_from(key: Seq<u8>) -> Compression {
    if key == "best".spec_bytes() {
        Compression::Best
    } else if key == "default".spec_bytes() {
        Compression::Default
    } else if key == "fast".spec_bytes() {
        Compression::Fast
    } else if key == "huffman".spec_bytes() {
        Compression::Huffman
    } else if key == "rle".spec_bytes() {
        Compression::Rle
    } else {
        Compression::Fast
    }
}

/// The filter preset a normalized name denotes; unknown names select no
/// filtering.
pub open spec fn spec_filter_from(key: Seq<u8>) -> FilterMode {
    if key == "avg".spec_bytes() {
        FilterMode::Avg
    } else if key == "nofilter".spec_bytes() {
        FilterMode::NoFilter
    } else if key == "paeth".spec_bytes() {
        FilterMode::Paeth
    } else if key == "sub".spec_bytes() {
        FilterMode::Sub
    } else if key == "up".spec_bytes() {
        FilterMode::Up
    } else {
        FilterMode::NoFilter
    }
}

/// Converts a string to a compression preset: the name is trimmed of ASCII
/// whitespace and ASCII-lowercased; an unrecognized name selects `Fast`.
pub fn image_compression_from(compression: &str) -> (r: Compression)
    ensures
        r == spec_compression_from(spec_normalize(compression.spec_bytes())),
{
    let key = normalize_key(compression);
    if bytes_eq_str(&key, "best") {
        Compression::Best
    } else if bytes_eq_str(&key, "default") {
        Compression::Default
    } else if bytes_eq_str(&key, "fast") {
        Compression::Fast
    } else if bytes_eq_str(&key, "huffman") {
        Compression::Huffman
    } else if bytes_eq_str(&key, "rle") {
        Compression::Rle
    } else {
        Compression::Fast
    }
}

/// Converts a string to a filter preset: the name is trimmed of ASCII
/// whitespace and ASCII-lowercased; an unrecognized name selects `NoFilter`.
pub fn image_filter_from(filter: &str) -> (r: FilterMode)
    ensures
        r == spec_filter_from(spec_normalize(filter.spec_bytes())),
{
    let key = normalize_key(filter);
    if bytes_eq_str(&key, "avg") {
        FilterMode::Avg
    } else if bytes_eq_str(&key, "nofilter") {
        FilterMode::NoFilter
    } else if bytes_eq_str(&key, "paeth") {
        FilterMode::Paeth
    } else if bytes_eq_str(&key, "sub") {
        FilterMode::Sub
    } else if bytes_eq_str(&key, "up") {
        FilterMode::Up
    } else {
        FilterMode::NoFilter
    }
}

/// The RGBA pixels a flat byte grid holds, four bytes per pixel.
pub open spec fn spec_bytes_to_pixels(bytes: Seq<u8>) -> Seq<Pixel> {
    Seq::new(
        (bytes.len() / 4) as nat,
        |i: int|
            Pixel {
                r: bytes[4 * i],
                g: bytes[4 * i + 1],
                b: bytes[4 * i + 2],
                a: bytes[4 * i + 3],
            },
    )
}

/// The flat byte grid of a pixel sequence, four bytes per pixel.
pub open spec fn spec_pixels_to_bytes(pixels: Seq<Pixel>) -> Seq<u8> {
    Seq::new(
        (pixels.len() * 4) as nat,
        |i: int|
            {
                let p = pixels[i / 4];
                if i % 4 == 0 {
                    p.r
                } else if i % 4 == 1 {
                    p.g
                } else if i % 4 == 2 {
                    p.b
                } else {
                    p.a
                }
            },
    )
}

/// What the PNG decoder yields for a byte stream that holds a valid RGBA8
/// PNG: its width, height and flat pixel bytes.  Any other stream decodes to
/// nothing.
pub uninterp spec fn png_decode_of(bytes: Seq<u8>) -> Option<(u32, u32, Seq<u8>)>;

/// What the PNG decoder makes of a byte stream's header: `None` where the
/// header does not parse as a PNG the decoder accepts, and otherwise whether
/// the stream's pixel format is 8-bit RGBA.
pub uninterp spec fn png_header_rgba8(bytes: Seq<u8>) -> Option<bool>;

/// Relies on image's `PngDecoder` and `ImageDecoder::read_image`: PNG
/// decoding is a pure function of the byte stream, and a successful RGBA8
/// decode yields exactly `width * height * 4` bytes, row by row.  A stream
/// whose header parses but declares a pixel format other than 8-bit RGBA is
/// rejected as unsupported, and decoding succeeds whenever the stream
/// decodes as RGBA8 and its pixel grid fits the address space.
#[verifier::external_body]
fn decode_png_rgba8(data: &[u8]) -> (r: Result<(u32, u32, Vec<u8>), PConvertError>)
    ensures
        r matches Ok(t) ==> png_decode_of(data@) == Some((t.0, t.1, t.2@)) && t.2@.len() == t.0
            * t.1 * 4 && t.2@.len() <= usize::MAX,
        (r matches Err(PConvertError::UnsupportedImageTypeError)) <==> png_header_rgba8(data@)
            == Some(false),
        png_decode_of(data@) matches Some(t) && t.2.len() <= usize::MAX ==> r is Ok,
{
    let decoder = image::codecs::png::PngDecoder::new(data)
        .map_err(|e| PConvertError::ImageLibError(e.to_string()))?;
    if image::ImageDecoder::color_type(&decoder) != image::ColorType::Rgba8 {
        return Err(PConvertError::UnsupportedImageTypeError);
    }
    let (w, h) = image::ImageDecoder::dimensions(&decoder);
    let total = usize::try_from(image::ImageDecoder::total_bytes(&decoder))
        .map_err(|_| PConvertError::ImageLibError("image too large".to_string()))?;
    let mut buf = vec![0u8; total];
    image::ImageDecoder::read_image(decoder, &mut buf)
        .map_err(|e| PConvertError::ImageLibError(e.to_string()))?;
    Ok((w, h, buf))
}

/// Decodes a PNG byte stream into an RGBA8 image buffer, demultiplying the
/// pixels on the way when requested.
///
/// Decoding succeeds exactly when the stream decodes as an RGBA8 PNG whose
/// pixel grid fits the address space; a stream of any other pixel format is
/// reported as unsupported.
pub fn decode_png(data: &[u8], demultiply: bool) -> (r: Result<ImageBuf, PConvertError>)
    ensures
        r matches Ok(img) ==> ({
            &&& png_decode_of(data@) matches Some(t) && img.spec_width() == t.0
                && img.spec_height() == t.1 && img@ == spec_prepared(
                spec_bytes_to_pixels(t.2),
                demultiply,
            )
            &&& img.wf()
        }),
        (r matches Err(PConvertError::UnsupportedImageTypeError)) <==> png_header_rgba8(data@)
            == Some(false),
        png_decode_of(data@) matches Some(t) && t.2.len() <= usize::MAX ==> r is Ok,
{
    let (w, h, bytes) = match decode_png_rgba8(data) {
        Ok(t) => t,
        Err(e) => {
            return Err(e);
        },
    };
    proof {
        vstd::arithmetic::div_mod::lemma_fundamental_div_mod_converse_div(
            bytes@.len() as int,
            4,
            (w as int) * (h as int),
            0,
        );
        assert((w as int) * (h as int) * 4 == (w as int) * (h as int) * 4 + 0);
    }
    let n = bytes.len() / 4;
    let mut pixels: Vec<Pixel> = Vec::new();
    let mut i: usize = 0;
    while i < n
        invariant
            n == bytes@.len() / 4,
            4 * n == bytes@.len(),
            4 * n <= usize::MAX,
            i <= n,
            pixels@.len() == i,
            forall|j: int| 0 <= j < i ==> pixels@[j] == spec_bytes_to_pixels(bytes@)[j],
        decreases n - i,
    {
        let p = Pixel {
            r: bytes[4 * i],
            g: bytes[4 * i + 1],
            b: bytes[4 * i + 2],
            a: bytes[4 * i + 3],
        };
        pixels.push(p);
        i = i + 1;
    }
    proof {
        assert(pixels@ =~= spec_bytes_to_pixels(bytes@));
    }
    let mut img = ImageBuf::from_pixels_exact(w, h, pixels);
    if demultiply {
        demultiply_image(&mut img);
    }
    Ok(img)
}

/// The flat byte grid of an image buffer.
fn image_to_bytes(img: &ImageBuf) -> (v: Vec<u8>)
    requires
        img@.len() * 4 <= usize::MAX,
    ensures
        v@ == spec_pixels_to_bytes(img@),
{
    let n = img.len();
    let mut v: Vec<u8> = Vec::new();
    let mut i: usize = 0;
    while i < n
        invariant
            n == img@.len(),
            n * 4 <= usize::MAX,
            i <= n,
            v@.len() == 4 * i,
            forall|j: int| 0 <= j < v@.len() ==> v@[j] == spec_pixels_to_bytes(img@)[j],
        decreases n - i,
    {
        let p = img.pixel(i);
        v.push(p.r);
        v.push(p.g);
        v.push(p.b);
        v.push(p.a);
        i = i + 1;
    }
    proof {
        assert(v@ =~= spec_pixels_to_bytes(img@));
    }
    v
}

#[verifier::external_type_specification]
#[verifier::external_body]
pub struct ExCompressionType(image::codecs::png::CompressionType);

#[verifier::external_type_specification]
#[verifier::external_body]
pub struct ExFilterType(image::codecs::png::FilterType);

#[verifier::external_type_specification]
#[verifier::external_body]
pub struct ExMtCompressionLevel(mtpng::CompressionLevel);

#[verifier::external_type_specification]
#[verifier::external_body]
pub struct ExMtFilter(mtpng::Filter);

/// Relies on image's `CompressionType`: selects the counterpart of each
/// compression preset, one for one.
#[verifier::external_body]
#[allow(deprecated)]
fn to_image_compression(c: &Compression) -> image::codecs::png::CompressionType {
    match c {
        Compression::Best => image::codecs::png::CompressionType::Best,
        Compression::Default => image::codecs::png::CompressionType::Default,
        Compression::Fast => image::codecs::png::CompressionType::Fast,
        Compression::Huffman => image::codecs::png::CompressionType::Huffman,
        Compression::Rle => image::codecs::png::CompressionType::Rle,
    }
}

/// Relies on image's `FilterType`: selects the counterpart of each filter
/// preset, one for one.
#[verifier::external_body]
fn to_image_filter(f: &FilterMode) -> image::codecs::png::FilterType {
    match f {
        FilterMode::Avg => image::codecs::png::FilterType::Avg,
        FilterMode::NoFilter => image::codecs::png::FilterType::NoFilter,
        FilterMode::Paeth => image::codecs::png::FilterType::Paeth,
        FilterMode::Sub => image::codecs::png::FilterType::Sub,
        FilterMode::Up => image::codecs::png::FilterType::Up,
    }
}

/// Relies on mtpng's `CompressionLevel`: selects the nearest level for each
/// compression preset, as the single-threaded encoder's presets map to zlib
/// levels (the Huffman and Rle presets fall back to the fast level).
#[verifier::external_body]
fn mtpng_compression_from(c: &Compression) -> mtpng::CompressionLevel {
    match c {
        Compression::Best => mtpng::CompressionLevel::High,
        Compression::Default => mtpng::CompressionLevel::Default,
        Compression::Fast => mtpng::CompressionLevel::Fast,
        Compression::Huffman => mtpng::CompressionLevel::Fast,
        Compression::Rle => mtpng::CompressionLevel::Fast,
    }
}

/// Relies on mtpng's `Filter`: selects the counterpart of each filter
/// preset, one for one.
#[verifier::external_body]
fn mtpng_filter_from(f: &FilterMode) -> mtpng::Filter {
    match f {
        FilterMode::Avg => mtpng::Filter::Average,
        FilterMode::NoFilter => mtpng::Filter::None,
        FilterMode::Paeth => mtpng::Filter::Paeth,
        FilterMode::Sub => mtpng::Filter::Sub,
        FilterMode::Up => mtpng::Filter::Up,
    }
}

/// What the PNG encoder produces for a flat RGBA8 byte grid under one
/// compression and filter setting (the settings stand in by their codes).
pub uninterp spec fn png_encode_of(
    width: u32,
    height: u32,
    bytes: Seq<u8>,
    compression: int,
    filter: int,
) -> Seq<u8>;

/// Relies on image's `PngEncoder`: with fixed compression and filter
/// settings the encoded stream is a pure function of the pixel bytes and the
/// dimensions, and encoding a matching buffer into memory fails only for
/// zero dimensions.
#[verifier::external_body]
fn encode_png_rgba8(
    width: u32,
    height: u32,
    data: &Vec<u8>,
    compression: Compression,
    filter: FilterMode,
) -> (r: Result<Vec<u8>, PConvertError>)
    requires
        data@.len() == width * height * 4,
    ensures
        width > 0 && height > 0 ==> r is Ok,
        r matches Ok(v) ==> v@ == png_encode_of(
            width,
            height,
            data@,
            compression_code(compression),
            filter_code(filter),
        ),
{
    let mut out: Vec<u8> = Vec::new();
    let encoder = image::codecs::png::PngEncoder::new_with_quality(
        &mut out,
        to_image_compression(&compression),
        to_image_filter(&filter),
    );
    match encoder.encode(data, width, height, image::ColorType::Rgba8) {
        Ok(()) => Ok(out),
        Err(e) => Err(PConvertError::ImageLibError(e.to_string())),
    }
}

/// Encodes a PNG and returns the encoded byte stream; encoding succeeds for
/// every buffer with non-zero dimensions.
pub fn encode_png(png: &ImageBuf, compression: Compression, filter: FilterMode) -> (r: Result<
    Vec<u8>,
    PConvertError,
>)
    requires
        png.wf(),
        png@.len() * 4 <= usize::MAX,
    ensures
        png.spec_width() > 0 && png.spec_height() > 0 ==> r is Ok,
        r matches Ok(v) ==> v@ == png_encode_of(
            png.spec_width(),
            png.spec_height(),
            spec_pixels_to_bytes(png@),
            compression_code(compression),
            filter_code(filter),
        ),
{
    let data = image_to_bytes(png);
    encode_png_rgba8(png.width(), png.height(), &data, compression, filter)
}

/// Relies on mtpng's multi-threaded encoder: encodes one RGBA8 image into a
/// PNG stream with the given settings.
#[verifier::external_body]
fn mtpng_encode_rgba8(
    width: u32,
    height: u32,
    data: &Vec<u8>,
    compression: Compression,
    filter: FilterMode,
) -> (r: Result<Vec<u8>, PConvertError>)
    requires
        data@.len() == width * height * 4,
{
    let err = |e: std::io::Error| PConvertError::ImageLibError(e.to_string());
    let mut header = mtpng::Header::new();
    header.set_size(width, height).map_err(err)?;
    header.set_color(mtpng::ColorType::TruecolorAlpha, 8).map_err(err)?;
    let mut options = mtpng::encoder::Options::new();
    options.set_compression_level(mtpng_compression_from(&compression)).map_err(err)?;
    options.set_filter_mode(mtpng::Mode::Fixed(mtpng_filter_from(&filter))).map_err(err)?;
    let mut encoder = mtpng::encoder::Encoder::new(Vec::new(), &options);
    encoder.write_header(&header).map_err(err)?;
    encoder.write_image_rows(data).map_err(err)?;
    encoder.finish().map_err(err)
}

/// Encodes a PNG through the multi-threaded encoder and returns the encoded
/// byte stream; the stream's exact bytes are the encoder's business and are
/// not pinned by this crate's specifications.
pub fn encode_png_parallel(png: &ImageBuf, compression: Compression, filter: FilterMode) -> Result<
    Vec<u8>,
    PConvertError,
>
    requires
        png.wf(),
        png@.len() * 4 <= usize::MAX,
{
    let data = image_to_bytes(png);
    mtpng_encode_rgba8(png.width(), png.height(), &data, compression, filter)
}

} // verus!
