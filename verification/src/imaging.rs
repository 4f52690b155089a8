//! Turning an image into grayscale with the `image` crate: the input's format is
//! guessed from its first bytes, the image decoded, turned into grayscale, and
//! written again as a GIF when the input was a GIF, as a PNG otherwise.

use vstd::prelude::*;
use vstd::utf8::encode_utf8;
use image::{DynamicImage, ImageError};
use crate::codec::{base64_encode, base64_standard};

verus! {

#[verifier::external_type_specification]
#[verifier::external_body]
pub struct ExDynamicImage(image::DynamicImage);

#[verifier::external_type_specification]
#[verifier::external_body]
pub struct ExImageError(image::ImageError);

/// What the format guess tells apart: a GIF, or another known format.
#[derive(Debug, PartialEq, Eq)]
pub enum DetectedFormat {
    Gif,
    Other,
}

/// The format in which the grayscale image is written.
#[derive(Debug, PartialEq, Eq)]
pub enum OutputFormat {
    Gif,
    Png,
}

/// The sample layouts of an `image::DynamicImage`: the channels of a pixel and the
/// width of a sample (8 or 16 bits, or a 32-bit float).
pub enum ColorKind {
    L8,
    La8,
    Rgb8,
    Rgba8,
    L16,
    La16,
    Rgb16,
    Rgba16,
    Rgb32F,
    Rgba32F,
}

/// The shape of a decoded image: its sample layout and its size in pixels.
pub struct ImageLayout {
    pub color: ColorKind,
    pub width: u32,
    pub height: u32,
}

/// A decoded image as plain values: its shape, and the bytes of its pixels, row by
/// row, each sample little-endian.
pub struct ImageView {
    pub layout: ImageLayout,
    pub samples: Seq<u8>,
}

/// Why an image could not be turned into grayscale.
#[derive(Debug, PartialEq, Eq)]
pub enum ImageFailure {
    /// The first bytes match no known image format.
    UnknownFormat,
    /// The bytes do not decode as an image.
    Decode,
    /// Writing the grayscale image failed.
    Encode,
}

/// `prefix` is the beginning of `s`.
pub open spec fn starts_with(s: Seq<u8>, prefix: Seq<u8>) -> bool {
    prefix.len() <= s.len() && s.subrange(0, prefix.len() as int) == prefix
}

/// The signatures that `image::guess_format` knows, in the order in which it tries them.
pub open spec fn image_signatures() -> Seq<Seq<u8>> {
    seq![
        seq![137u8, 80u8, 78u8, 71u8, 13u8, 10u8, 26u8, 10u8], // PNG
        seq![255u8, 216u8, 255u8], // JPEG
        seq![71u8, 73u8, 70u8, 56u8, 57u8, 97u8], // GIF89a
        seq![71u8, 73u8, 70u8, 56u8, 55u8, 97u8], // GIF87a
        seq![82u8, 73u8, 70u8, 70u8], // RIFF (WebP)
        seq![77u8, 77u8, 0u8, 42u8], // TIFF, big-endian
        seq![73u8, 73u8, 42u8, 0u8], // TIFF, little-endian
        seq![68u8, 68u8, 83u8, 32u8], // DDS
        seq![66u8, 77u8], // BMP
        seq![0u8, 0u8, 1u8, 0u8], // ICO
        seq![35u8, 63u8, 82u8, 65u8, 68u8, 73u8, 65u8, 78u8, 67u8, 69u8], // #?RADIANCE (HDR)
        seq![80u8, 49u8], // P1 (PNM)
        seq![80u8, 50u8], // P2
        seq![80u8, 51u8], // P3
        seq![80u8, 52u8], // P4
        seq![80u8, 53u8], // P5
        seq![80u8, 54u8], // P6
        seq![80u8, 55u8], // P7
        seq![102u8, 97u8, 114u8, 98u8, 102u8, 101u8, 108u8, 100u8], // farbfeld
        seq![0u8, 0u8, 0u8, 32u8, 102u8, 116u8, 121u8, 112u8, 97u8, 118u8, 105u8, 102u8], // AVIF
        seq![0u8, 0u8, 0u8, 28u8, 102u8, 116u8, 121u8, 112u8, 97u8, 118u8, 105u8, 102u8], // AVIF
        seq![118u8, 47u8, 49u8, 1u8], // OpenEXR
        seq![113u8, 111u8, 105u8, 102u8], // qoif (QOI)
    ]
}

/// The bytes start with one of the signatures `image::guess_format` knows.
pub open spec fn known_signature(bytes: Seq<u8>) -> bool {
    exists|i: int| 0 <= i < image_signatures().len() && starts_with(bytes, #[trigger] image_signatures()[i])
}

/// The bytes start with `GIF89a` or `GIF87a`.
pub open spec fn gif_signature(bytes: Seq<u8>) -> bool {
    starts_with(bytes, seq![71u8, 73u8, 70u8, 56u8, 57u8, 97u8])
        || starts_with(bytes, seq![71u8, 73u8, 70u8, 56u8, 55u8, 97u8])
}

/// The format guessed from the first bytes of `bytes`. The first matching signature
/// decides; only the GIF signatures begin with `G`, and the two before them begin
/// with other bytes, so a GIF is guessed exactly for a GIF signature.
pub open spec fn detected_format(bytes: Seq<u8>) -> Option<DetectedFormat> {
    if gif_signature(bytes) {
        Some(DetectedFormat::Gif)
    } else if known_signature(bytes) {
        Some(DetectedFormat::Other)
    } else {
        None
    }
}

/// The bytes with which a file of format `f` begins.
pub open spec fn format_signature(f: OutputFormat) -> Seq<u8> {
    match f {
        OutputFormat::Gif => seq![71u8, 73u8, 70u8, 56u8, 57u8, 97u8],
        OutputFormat::Png => seq![137u8, 80u8, 78u8, 71u8, 13u8, 10u8, 26u8, 10u8],
    }
}

/// Samples that are 32-bit floats.
pub open spec fn is_float(c: ColorKind) -> bool {
    c is Rgb32F || c is Rgba32F
}

/// The layout that `DynamicImage::grayscale` gives an image of layout `c`: colour
/// becomes luma, alpha is kept, and float images keep their layout.
pub open spec fn grayscale_color(c: ColorKind) -> ColorKind {
    match c {
        ColorKind::Rgb8 => ColorKind::L8,
        ColorKind::Rgba8 => ColorKind::La8,
        ColorKind::Rgb16 => ColorKind::L16,
        ColorKind::Rgba16 => ColorKind::La16,
        other => other,
    }
}

/// The shape of a decoded image.
pub uninterp spec fn image_layout(img: DynamicImage) -> ImageLayout;

/// The bytes of a decoded image's pixels, row by row: its first width × height
/// pixels, each sample written little-endian (16-bit samples in two bytes, float
/// samples as the four bytes of their IEEE 754 encoding).
pub uninterp spec fn image_samples(img: DynamicImage) -> Seq<u8>;

/// A decoded image as plain values.
pub open spec fn view_of(img: DynamicImage) -> ImageView {
    ImageView { layout: image_layout(img), samples: image_samples(img) }
}

/// What `image::load_from_memory` decodes from `bytes`; `None` where it fails.
pub uninterp spec fn decoded_image(bytes: Seq<u8>) -> Option<ImageView>;

/// The samples that `DynamicImage::grayscale` computes for a float image `v`.
pub uninterp spec fn float_grayscale_samples(v: ImageView) -> Seq<u8>;

/// The luma of the colour `(r, g, b)` of 8- or 16-bit samples: the sRGB weights
/// 0.2126, 0.7152 and 0.0722, in ten-thousandths, rounded down.
pub open spec fn luma(r: int, g: int, b: int) -> int {
    (2126 * r + 7152 * g + 722 * b) / 10000
}

/// The 16-bit sample at index `k` of the little-endian bytes `s`.
pub open spec fn sample16(s: Seq<u8>, k: int) -> int {
    s[2 * k] as int + 256 * s[2 * k + 1] as int
}

/// Byte `j` of the little-endian bytes of a row of 16-bit samples, where `value` is
/// the sample that byte belongs to.
pub open spec fn le16_byte(value: int, j: int) -> u8 {
    if j % 2 == 0 {
        (value % 256) as u8
    } else {
        (value / 256) as u8
    }
}

/// The samples of the grayscale version of the `n` pixels `s` of layout `c`, for
/// 8- and 16-bit layouts: each colour becomes its luma, alpha is kept, and luma
/// samples stay as they are.
pub open spec fn gray_samples(c: ColorKind, s: Seq<u8>, n: int) -> Seq<u8> {
    match c {
        ColorKind::Rgb8 => Seq::new(
            n as nat,
            |p: int| luma(s[3 * p] as int, s[3 * p + 1] as int, s[3 * p + 2] as int) as u8,
        ),
        ColorKind::Rgba8 => Seq::new(
            (2 * n) as nat,
            |j: int|
                if j % 2 == 0 {
                    luma(s[4 * (j / 2)] as int, s[4 * (j / 2) + 1] as int, s[4 * (j / 2) + 2] as int) as u8
                } else {
                    s[4 * (j / 2) + 3]
                },
        ),
        ColorKind::Rgb16 => Seq::new(
            (2 * n) as nat,
            |j: int|
                le16_byte(
                    luma(sample16(s, 3 * (j / 2)), sample16(s, 3 * (j / 2) + 1), sample16(s, 3 * (j / 2) + 2)),
                    j,
                ),
        ),
        ColorKind::Rgba16 => Seq::new(
            (4 * n) as nat,
            |j: int|
                if j % 4 < 2 {
                    le16_byte(
                        luma(sample16(s, 4 * (j / 4)), sample16(s, 4 * (j / 4) + 1), sample16(s, 4 * (j / 4) + 2)),
                        j,
                    )
                } else {
                    s[8 * (j / 4) + 4 + j % 4]
                },
        ),
        _ => s,
    }
}

/// What `DynamicImage::grayscale` makes of the image `v`: an image of the same size,
/// of layout `grayscale_color`; its samples as `gray_samples` computes them, or, for
/// float images, as the name `float_grayscale_samples` gives them.
pub open spec fn grayscale_view(v: ImageView) -> ImageView {
    let l = v.layout;
    ImageView {
        layout: ImageLayout { color: grayscale_color(l.color), width: l.width, height: l.height },
        samples: if is_float(l.color) {
            float_grayscale_samples(v)
        } else {
            gray_samples(l.color, v.samples, l.width * l.height)
        },
    }
}

/// Layouts without colour: luma, with or without alpha, of 8 or 16 bits.
pub open spec fn is_gray(c: ColorKind) -> bool {
    c is L8 || c is La8 || c is L16 || c is La16
}

/// A size that the decoders read back within their memory limits (50 MB for a GIF
/// frame, 512 MiB for an image): not empty, and at most 6,250,000 pixels, which at
/// 8 bytes a pixel at most is 50 MB.
pub open spec fn readable_size(l: ImageLayout) -> bool {
    0 < l.width && 0 < l.height && l.width * l.height <= 6_250_000
}

/// What `DynamicImage::write_to` writes for the image `v` in format `format`; `None`
/// where it fails.
pub uninterp spec fn encoded_image(v: ImageView, format: OutputFormat) -> Option<Seq<u8>>;

/// `image::guess_format`: looks the first bytes up in its table of signatures, in
/// order, and reports the format of the first that matches.
#[verifier::external_body]
fn guess_format(bytes: &[u8]) -> (r: Option<DetectedFormat>)
    ensures
        r == detected_format(bytes@),
{
    match image::guess_format(bytes) {
        Ok(image::ImageFormat::Gif) => Some(DetectedFormat::Gif),
        Ok(_) => Some(DetectedFormat::Other),
        Err(_) => None,
    }
}

/// `image::load_from_memory`: guesses the format first and fails when the guess
/// fails; what it decodes otherwise is left to the name `decoded_image`.
#[verifier::external_body]
fn load_image(bytes: &[u8]) -> (r: Result<DynamicImage, ImageError>)
    ensures
        r is Ok <==> decoded_image(bytes@) is Some,
        r matches Ok(img) ==> decoded_image(bytes@) == Some(view_of(img)),
        !known_signature(bytes@) ==> r is Err,
{
    image::load_from_memory(bytes)
}

/// `DynamicImage::grayscale`: keeps the size, maps the layout as `grayscale_color`
/// says, turns each 8- or 16-bit colour into its integer luma (`rgb_to_luma` in the
/// crate's `color.rs`), keeps alpha, and copies luma images unchanged. How float
/// samples become luma is left to the name `float_grayscale_samples`.
#[verifier::external_body]
fn to_grayscale(img: &DynamicImage) -> (g: DynamicImage)
    ensures
        view_of(g) == grayscale_view(view_of(*img)),
        is_float(image_layout(*img).color) ==> image_samples(g) == float_grayscale_samples(
            view_of(*img),
        ),
{
    img.grayscale()
}

/// `DynamicImage::write_to` into an empty buffer. The GIF encoder starts its output
/// with `GIF89a` and the PNG encoder with the PNG signature; the PNG encoder refuses
/// float samples. Both record the image's size, which decoding reads back; a PNG keeps
/// the sample layout and the samples, so decoding it gives the image back. What was
/// written decodes again when its size is within the decoders' memory limits
/// (`readable_size`). The bytes, and whether encoding succeeds otherwise, are left to
/// the name `encoded_image`.
#[verifier::external_body]
fn encode_image(img: &DynamicImage, format: OutputFormat) -> (r: Result<Vec<u8>, ImageError>)
    ensures
        r is Ok <==> encoded_image(view_of(*img), format) is Some,
        r matches Ok(b) ==> encoded_image(view_of(*img), format) == Some(b@),
        r matches Ok(b) ==> starts_with(b@, format_signature(format)),
        (format == OutputFormat::Png && is_float(image_layout(*img).color)) ==> r is Err,
        r matches Ok(b) ==> (decoded_image(b@) matches Some(w) ==> w.layout.width == image_layout(
            *img,
        ).width && w.layout.height == image_layout(*img).height),
        format == OutputFormat::Png ==> (r matches Ok(b) ==> (decoded_image(b@) matches Some(w) ==> w
            == view_of(*img))),
        r matches Ok(b) ==> (readable_size(image_layout(*img)) ==> decoded_image(b@) is Some),
{
    let mut out = std::io::Cursor::new(Vec::new());
    let f = match format {
        OutputFormat::Gif => image::ImageOutputFormat::Gif,
        OutputFormat::Png => image::ImageOutputFormat::Png,
    };
    img.write_to(&mut out, f)?;
    Ok(out.into_inner())
}

/// The format in which the grayscale version of an image of format `detected` is written.
pub open spec fn output_format_spec(detected: DetectedFormat) -> OutputFormat {
    match detected {
        DetectedFormat::Gif => OutputFormat::Gif,
        DetectedFormat::Other => OutputFormat::Png,
    }
}

/// A GIF stays a GIF; every other format becomes a PNG.
pub fn output_format_for(detected: &DetectedFormat) -> (f: OutputFormat)
    ensures
        f == output_format_spec(*detected),
{
    match detected {
        DetectedFormat::Gif => OutputFormat::Gif,
        DetectedFormat::Other => OutputFormat::Png,
    }
}

/// The format in which the grayscale version of `image` is written.
pub open spec fn grayscale_format(image: Seq<u8>) -> OutputFormat {
    if gif_signature(image) {
        OutputFormat::Gif
    } else {
        OutputFormat::Png
    }
}

/// The grayscale version of `image`: its format guessed, the image decoded, turned
/// into grayscale and written in the format `output_format_spec` picks; or the first
/// step that failed.
pub open spec fn grayscale_result(image: Seq<u8>) -> Result<Seq<u8>, ImageFailure> {
    match detected_format(image) {
        None => Err(ImageFailure::UnknownFormat),
        Some(d) => match decoded_image(image) {
            None => Err(ImageFailure::Decode),
            Some(v) => match encoded_image(grayscale_view(v), output_format_spec(d)) {
                None => Err(ImageFailure::Encode),
                Some(out) => Ok(out),
            },
        },
    }
}

/// The grayscale version of `image` as standard Base64 text, or the failure.
pub open spec fn grayscale_text_result(image: Seq<u8>) -> Result<Seq<u8>, ImageFailure> {
    match grayscale_result(image) {
        Ok(out) => Ok(base64_standard(out)),
        Err(e) => Err(e),
    }
}

/// The output `out` made from `image` reads back: it decodes again when the image
/// that `image` decodes to has a readable size; decoded, it has that image's size;
/// and when it is a PNG, it decodes to the grayscale version of that image itself.
pub open spec fn reads_back_as_grayscale(image: Seq<u8>, out: Seq<u8>) -> bool {
    &&& decoded_image(image) matches Some(v) ==> (readable_size(v.layout) ==> decoded_image(out) is Some)
    &&& decoded_image(out) matches Some(w) ==> decoded_image(image) matches Some(v) && {
        &&& w.layout.width == v.layout.width
        &&& w.layout.height == v.layout.height
        &&& grayscale_format(image) == OutputFormat::Png ==> w == grayscale_view(v)
    }
}

/// Turning `out` into grayscale again gives `out` back, byte for byte.
pub open spec fn regrays_to_itself(out: Seq<u8>) -> bool {
    grayscale_result(out) == Ok::<Seq<u8>, ImageFailure>(out)
}

/// Graying a gray image changes nothing: for 8- and 16-bit images, the grayscale
/// version of the grayscale version is the grayscale version.
pub proof fn lemma_grayscale_view_idempotent(v: ImageView)
    requires
        !is_float(v.layout.color),
    ensures
        is_gray(grayscale_view(v).layout.color),
        grayscale_view(grayscale_view(v)) == grayscale_view(v),
{
}

/// `r` with its bytes taken as a sequence.
pub open spec fn bytes_result(r: Result<Vec<u8>, ImageFailure>) -> Result<Seq<u8>, ImageFailure> {
    match r {
        Ok(b) => Ok(b@),
        Err(e) => Err(e),
    }
}

/// `r` with its text taken as UTF-8 bytes.
pub open spec fn text_result(r: Result<String, ImageFailure>) -> Result<Seq<u8>, ImageFailure> {
    match r {
        Ok(t) => Ok(encode_utf8(t@)),
        Err(e) => Err(e),
    }
}

/// The grayscale version of the image `image`, written as a GIF when `image` is one
/// and as a PNG otherwise; or why that failed. A float image (HDR, OpenEXR) that is
/// not a GIF cannot be written as a PNG.
pub fn grayscale_image(image: &[u8]) -> (r: Result<Vec<u8>, ImageFailure>)
    ensures
        bytes_result(r) == grayscale_result(image@),
        r matches Ok(out) ==> starts_with(out@, format_signature(grayscale_format(image@))),
        r matches Ok(out) ==> reads_back_as_grayscale(image@, out@),
        r matches Ok(out) ==> (grayscale_format(image@) == OutputFormat::Png ==> (decoded_image(out@) is Some
            ==> regrays_to_itself(out@))),
        detected_format(image@) == Some(DetectedFormat::Other) ==> (decoded_image(image@) matches Some(
            v,
        ) && is_float(v.layout.color) ==> r == Err::<Vec<u8>, ImageFailure>(ImageFailure::Encode)),
{
    let detected = match guess_format(image) {
        Some(d) => d,
        None => return Err(ImageFailure::UnknownFormat),
    };
    let img = match load_image(image) {
        Ok(img) => img,
        Err(_) => return Err(ImageFailure::Decode),
    };
    let filtered = to_grayscale(&img);
    let format = output_format_for(&detected);
    match encode_image(&filtered, format) {
        Ok(bytes) => {
            proof {
                if grayscale_format(image@) == OutputFormat::Png && decoded_image(bytes@) is Some {
                    let png = format_signature(OutputFormat::Png);
                    assert(image_signatures()[0] == png);
                    assert(bytes@[0] == png[0]);
                    assert(known_signature(bytes@));
                    assert(!gif_signature(bytes@)) by {
                        if starts_with(bytes@, seq![71u8, 73u8, 70u8, 56u8, 57u8, 97u8]) {
                            assert(bytes@[0] == 71u8);
                        }
                        if starts_with(bytes@, seq![71u8, 73u8, 70u8, 56u8, 55u8, 97u8]) {
                            assert(bytes@[0] == 71u8);
                        }
                    }
                }
            }
            Ok(bytes)
        },
        Err(_) => Err(ImageFailure::Encode),
    }
}

/// The grayscale version of the image `image`, written as a GIF when `image` is one
/// and as a PNG otherwise. The image must be one that can be processed.
pub fn grayscale(image: &[u8]) -> (r: Vec<u8>)
    requires
        grayscale_result(image@) is Ok,
    ensures
        grayscale_result(image@) == Ok::<Seq<u8>, ImageFailure>(r@),
        starts_with(r@, format_signature(grayscale_format(image@))),
        reads_back_as_grayscale(image@, r@),
        grayscale_format(image@) == OutputFormat::Png ==> (decoded_image(r@) is Some ==> regrays_to_itself(
            r@,
        )),
{
    match grayscale_image(image) {
        Ok(bytes) => bytes,
        Err(_) => {
            proof {
                assert(false);
            }
            Vec::new()
        },
    }
}

/// The grayscale version of `image_data` (as [`grayscale`] makes it), as standard
/// Base64 text. The image must be one that can be processed.
pub fn grayscale_internal(image_data: &[u8]) -> (r: String)
    requires
        grayscale_result(image_data@) is Ok,
    ensures
        grayscale_text_result(image_data@) == Ok::<Seq<u8>, ImageFailure>(encode_utf8(r@)),
{
    let bytes = grayscale(image_data);
    base64_encode(bytes.as_slice())
}

/// [`grayscale_internal`] where the image can be processed; otherwise why it cannot.
pub fn grayscale_text(image_data: &[u8]) -> (r: Result<String, ImageFailure>)
    ensures
        text_result(r) == grayscale_text_result(image_data@),
{
    match grayscale_image(image_data) {
        Ok(_) => Ok(grayscale_internal(image_data)),
        Err(e) => Err(e),
    }
}

} // verus!
