//! Pictures of parts: why a candidate image was refused, what a stored one is, and which content
//! type a stored blob is served as.

use vstd::prelude::*;
use crate::number::{decimal, decimal_text};
use crate::text::push_all;
use image::{DynamicImage, ImageFormat, ImageReader, Limits};

verus! {

/// The largest image file taken in, in bytes: 10 MiB.
pub const MAX_INPUT_BYTES: usize = 10485760;
/// Below this on the short edge, an image is refused rather than stored.
pub const MIN_EDGE_PX: u32 = 64;
/// Above this on the long edge, an image is resized rather than refused.
pub const MAX_EDGE_PX: u32 = 2048;

/// Why a candidate image was refused. Every variant is a sentence a user can act on.
#[derive(Debug, Clone, Copy, PartialEq, Eq, Structural)]
pub enum ImageError {
    TooLarge { got: usize },
    NotAnImage,
    Undecodable,
    TooSmall { width: u32, height: u32 },
    Unencodable,
}

impl ImageError {
    /// The sentence the error is shown as.
    pub open spec fn sentence(self) -> Seq<char> {
        match self {
            ImageError::TooLarge { got } => "That file is "@ + decimal(got as nat)
                + " bytes, and the limit is 10485760. Save it at a smaller size, or export it as JPEG rather than PNG, and try again."@,
            ImageError::NotAnImage =>
                "That does not look like an image file. Lapidary reads PNG, JPEG and WebP; the file's own header says it is none of them, whatever its name or content type claims."@,
            ImageError::Undecodable =>
                "That image could not be read. It may be truncated, or saved in a variant of its format that this build does not decode — open it and re-export it, and try again."@,
            ImageError::TooSmall { width, height } => "That image is "@ + decimal(width as nat)
                + "×"@ + decimal(height as nat)
                + ", and the smallest side must be at least 64 pixels. That size is usually an icon or a placeholder picked up by mistake rather than a photograph."@,
            ImageError::Unencodable =>
                "That image could not be re-encoded, so it has not been stored. This is a fault on our side rather than a problem with your file; the api service log has the detail."@,
        }
    }

    /// The error in words.
    pub fn message(self) -> (m: String)
        ensures
            m@ == self.sentence(),
    {
        match self {
            ImageError::TooLarge { got } => {
                let mut m = "That file is ".to_owned();
                let g = decimal_text(got as u64);
                push_all(&mut m, g.as_str());
                push_all(
                    &mut m,
                    " bytes, and the limit is 10485760. Save it at a smaller size, or export it as JPEG rather than PNG, and try again.",
                );
                m
            },
            ImageError::NotAnImage => "That does not look like an image file. Lapidary reads PNG, JPEG and WebP; the file's own header says it is none of them, whatever its name or content type claims.".to_owned(),
            ImageError::Undecodable => "That image could not be read. It may be truncated, or saved in a variant of its format that this build does not decode — open it and re-export it, and try again.".to_owned(),
            ImageError::TooSmall { width, height } => {
                let mut m = "That image is ".to_owned();
                let w = decimal_text(width as u64);
                push_all(&mut m, w.as_str());
                push_all(&mut m, "×");
                let h = decimal_text(height as u64);
                push_all(&mut m, h.as_str());
                push_all(
                    &mut m,
                    ", and the smallest side must be at least 64 pixels. That size is usually an icon or a placeholder picked up by mistake rather than a photograph.",
                );
                m
            },
            ImageError::Unencodable => "That image could not be re-encoded, so it has not been stored. This is a fault on our side rather than a problem with your file; the api service log has the detail.".to_owned(),
        }
    }
}

/// A stored-ready image: WebP bytes, and what they came out as.
#[derive(Debug)]
pub struct NormalizedImage {
    pub webp: Vec<u8>,
    pub width: u32,
    pub height: u32,
}

/// A WebP file's header: a RIFF container whose fourcc, at bytes 8 to 12, is `WEBP`.
pub open spec fn is_webp(bytes: Seq<u8>) -> bool {
    &&& bytes.len() >= 12
    &&& bytes[0] == 0x52 && bytes[1] == 0x49 && bytes[2] == 0x46 && bytes[3] == 0x46
    &&& bytes[8] == 0x57 && bytes[9] == 0x45 && bytes[10] == 0x42 && bytes[11] == 0x50
}

/// What a stored blob is served as: WebP, the only picture format stored, when its header says
/// so; glTF otherwise, since an unrecognised blob is far more likely a new kind of geometry than
/// a new kind of picture.
pub fn content_type(bytes: &[u8]) -> (t: &'static str)
    ensures
        t@ == (if is_webp(bytes@) { "image/webp"@ } else { "model/gltf-binary"@ }),
{
    if bytes.len() >= 12 && bytes[0] == 0x52 && bytes[1] == 0x49 && bytes[2] == 0x46 && bytes[3]
        == 0x46 && bytes[8] == 0x57 && bytes[9] == 0x45 && bytes[10] == 0x42 && bytes[11] == 0x50 {
        "image/webp"
    } else {
        "model/gltf-binary"
    }
}

/// The largest pixel buffer a decode may allocate: 64 MiB, which bounds one decode while leaving
/// room for an image nobody would call unreasonable. A decompression bomb asks for more.
pub const MAX_DECODE_BYTES: u64 = 67108864;

/// The longest side, in pixels, the WebP encoder takes.
pub const MAX_WEBP_SIDE: u32 = 16384;

/// The three formats this build reads.
#[derive(Debug, Clone, Copy, PartialEq, Eq, Structural)]
pub enum ImageKind {
    Png,
    Jpeg,
    WebP,
}

/// Which of the three formats a file's own header says it is, as `image::guess_format` reads
/// the magic bytes: PNG's eight-byte signature, JPEG's `FF D8 FF`, or WebP's RIFF header. Any
/// other header, another format's included, is none of them.
pub open spec fn sniffed(bytes: Seq<u8>) -> Option<ImageKind> {
    if bytes.len() >= 8 && bytes[0] == 0x89 && bytes[1] == 0x50 && bytes[2] == 0x4e && bytes[3]
        == 0x47 && bytes[4] == 0x0d && bytes[5] == 0x0a && bytes[6] == 0x1a && bytes[7] == 0x0a {
        Some(ImageKind::Png)
    } else if bytes.len() >= 3 && bytes[0] == 0xff && bytes[1] == 0xd8 && bytes[2] == 0xff {
        Some(ImageKind::Jpeg)
    } else if is_webp(bytes) {
        Some(ImageKind::WebP)
    } else {
        None
    }
}

/// `image::guess_format`, told apart into the three formats this build reads. The table it reads
/// tries PNG, JPEG, two GIF signatures and then WebP, first match winning; the GIF signatures
/// start with `G`, so they never stand in the way of the three, which is why [`sniffed`] states
/// the result exactly.
#[verifier::external_body]
fn sniff(bytes: &[u8]) -> (k: Option<ImageKind>)
    ensures
        k == sniffed(bytes@),
{
    match image::guess_format(bytes) {
        Ok(ImageFormat::Png) => Some(ImageKind::Png),
        Ok(ImageFormat::Jpeg) => Some(ImageKind::Jpeg),
        Ok(ImageFormat::WebP) => Some(ImageKind::WebP),
        _ => None,
    }
}

/// The size of the picture `bytes` decode to as `kind` when a decode may allocate at most
/// `max_alloc` bytes, or `None` when they do not decode within it.
pub uninterp spec fn decoded_size(bytes: Seq<u8>, kind: ImageKind, max_alloc: u64) -> Option<(u32, u32)>;

/// The size `image`'s `thumbnail` scales a `width`×`height` picture to, to fit within
/// `max`×`max` keeping its aspect ratio.
pub uninterp spec fn thumbnail_size(width: u32, height: u32, max: u32) -> (u32, u32);

/// How a decoded picture lays its samples out, as `image::ColorType` names the ways.
pub enum Layout {
    L8,
    La8,
    Rgb8,
    Rgba8,
    L16,
    La16,
    Rgb16,
    Rgba16,
    Rgb32F,
    Rgba32F,
}

/// What a decoded picture holds: its layout, and each of its samples in order, row by row and
/// channel by channel, by its value (a 32-bit float sample by its bits).
pub struct PictureView {
    pub layout: Layout,
    pub samples: Seq<u32>,
}

/// The picture `bytes` decode to as `kind` when a decode may allocate at most `max_alloc` bytes.
/// `image`'s PNG and WebP decoders compute in integers, and `zune-jpeg`'s SIMD paths use the same
/// integer arithmetic as its scalar ones, so the same bytes give the same picture.
pub uninterp spec fn decoded_picture(bytes: Seq<u8>, kind: ImageKind, max_alloc: u64) -> PictureView;

/// What `DynamicImage::thumbnail(max, max)` makes of a `width`×`height` picture: each output
/// pixel the average of the block of input pixels it covers, in the same layout.
pub uninterp spec fn thumbnail_picture(picture: PictureView, width: u32, height: u32, max: u32) -> PictureView;

/// The lossless WebP that `image` writes for a `width`×`height` picture: its samples converted
/// to 8-bit RGBA, then encoded by `image-webp`'s lossless encoder.
pub uninterp spec fn webp_lossless(picture: PictureView, width: u32, height: u32) -> Seq<u8>;

#[verifier::external_type_specification]
#[verifier::external_body]
pub struct ExDynamicImage(DynamicImage);

/// A decoded picture, its size, and what it holds.
pub struct Decoded {
    picture: DynamicImage,
    width: u32,
    height: u32,
    contents: Ghost<PictureView>,
}

impl Decoded {
    /// What it holds.
    pub closed spec fn spec_contents(&self) -> PictureView {
        self.contents@
    }

    /// Its width in pixels.
    pub closed spec fn spec_width(&self) -> u32 {
        self.width
    }

    /// Its height in pixels.
    pub closed spec fn spec_height(&self) -> u32 {
        self.height
    }
}

/// `ImageReader::decode` of `bytes` read as `kind`, with `Limits::max_alloc` set to `max_alloc`
/// so that a picture asking for more is refused when it asks; the size is the decoded picture's
/// own `width()` and `height()`, named by [`decoded_size`]. The reader reserves the decoder's
/// `total_bytes()`, its width times its height times at least one byte a pixel, against
/// `max_alloc` before decoding, so a decoded picture has at most `max_alloc` pixels.
#[verifier::external_body]
fn decode(bytes: &[u8], kind: ImageKind, max_alloc: u64) -> (d: Option<Decoded>)
    ensures
        match decoded_size(bytes@, kind, max_alloc) {
            Some((w, h)) => d matches Some(p) && p.spec_width() == w && p.spec_height() == h
                && p.spec_contents() == decoded_picture(bytes@, kind, max_alloc),
            None => d is None,
        },
        d matches Some(p) ==> p.spec_width() * p.spec_height() <= max_alloc,
{
    let format = match kind {
        ImageKind::Png => ImageFormat::Png,
        ImageKind::Jpeg => ImageFormat::Jpeg,
        ImageKind::WebP => ImageFormat::WebP,
    };
    let mut reader = ImageReader::new(std::io::Cursor::new(bytes));
    reader.set_format(format);
    let mut limits = Limits::default();
    limits.max_alloc = Some(max_alloc);
    reader.limits(limits);
    let picture = reader.decode().ok()?;
    let contents = Ghost(decoded_picture(bytes@, kind, max_alloc));
    Some(Decoded { width: picture.width(), height: picture.height(), picture, contents })
}

/// `DynamicImage::thumbnail(max, max)`: the picture scaled down to fit within `max`×`max`,
/// keeping its aspect ratio, at the size named by [`thumbnail_size`]. `resize_dimensions` scales
/// both sides by the smaller of `max / width` and `max / height`, rounds, and raises a side that
/// rounds to 0 to 1, so each side is from 1 to `max`. The ratio is `max` over the longer side,
/// so that side comes out as `max` and the other as its share rounded, in `f64`; for sides up to
/// 2^26 and `max` up to 2^16 the rounding error stays far below the distance from a share to
/// the nearest half that is not a tie, so the other side is the nearest whole number to its
/// share (either one at a tie), or 1 where that is 0.
#[verifier::external_body]
fn thumbnail(d: Decoded, max: u32) -> (t: Decoded)
    requires
        d.spec_width() >= 1,
        d.spec_height() >= 1,
        max >= 1,
    ensures
        (t.spec_width(), t.spec_height()) == thumbnail_size(d.spec_width(), d.spec_height(), max),
        1 <= t.spec_width() <= max,
        1 <= t.spec_height() <= max,
        d.spec_width() <= 0x400_0000 && d.spec_height() <= 0x400_0000 && max <= 0x1_0000
            ==> fits_long_side(d.spec_width() as int, d.spec_height() as int, max as int, t.spec_width() as int, t.spec_height() as int),
        t.spec_contents() == thumbnail_picture(d.spec_contents(), d.spec_width(), d.spec_height(), max),
{
    let picture = d.picture.thumbnail(max, max);
    let contents = Ghost(thumbnail_picture(d.contents@, d.width, d.height, max));
    Decoded { width: picture.width(), height: picture.height(), picture, contents }
}

/// `WebPEncoder::new_lossless` over the picture's RGBA8 pixels: the WebP bytes, or `None` when
/// the encoder fails, which `image-webp` does only for a side of 0 or over 16384 pixels (the
/// output is a `Vec`, which takes every write). Without metadata it writes the simple container:
/// `RIFF`, the length, `WEBP`, then the lossless frame; the bytes are those named by
/// [`webp_lossless`] for the picture.
#[verifier::external_body]
fn encode_webp(d: &Decoded) -> (webp: Option<Vec<u8>>)
    ensures
        1 <= d.spec_width() <= MAX_WEBP_SIDE && 1 <= d.spec_height() <= MAX_WEBP_SIDE ==> webp is Some,
        webp matches Some(b) ==> is_webp(b@),
        webp matches Some(b) ==> b@ == webp_lossless(d.spec_contents(), d.spec_width(), d.spec_height()),
{
    let rgba = d.picture.to_rgba8();
    let mut out = Vec::new();
    image::codecs::webp::WebPEncoder::new_lossless(&mut out)
        .encode(rgba.as_raw(), rgba.width(), rgba.height(), image::ExtendedColorType::Rgba8)
        .ok()?;
    Some(out)
}

/// Whether `m` is a whole number nearest to `num / den`: within a half of it, either one at a
/// tie.
pub open spec fn nearest(num: int, den: int, m: int) -> bool {
    -den <= 2 * (m * den - num) <= den
}

/// Whether `nw`×`nh` is `w`×`h` scaled to fit within `max`×`max` keeping its shape: the longer
/// side becomes `max`, and the other the whole number nearest its share of `max`, or 1 where
/// that share is at most a half.
pub open spec fn fits_long_side(w: int, h: int, max: int, nw: int, nh: int) -> bool {
    if w >= h {
        nw == max && (nearest(h * max, w, nh) || (nh == 1 && 2 * h * max <= w))
    } else {
        nh == max && (nearest(w * max, h, nw) || (nw == 1 && 2 * w * max <= h))
    }
}

/// Whether a stored size keeps the decoded one: the same within [`MAX_EDGE_PX`], and scaled so
/// the longer side is [`MAX_EDGE_PX`] with the shape kept otherwise.
pub open spec fn keeps_shape(w: u32, h: u32, nw: u32, nh: u32) -> bool {
    if w <= MAX_EDGE_PX && h <= MAX_EDGE_PX {
        nw == w && nh == h
    } else {
        fits_long_side(w as int, h as int, MAX_EDGE_PX as int, nw as int, nh as int)
    }
}

/// The picture kept of `bytes`: what they decode to, scaled down to fit within [`MAX_EDGE_PX`]
/// when either side is over it.
pub open spec fn stored_picture(bytes: Seq<u8>) -> PictureView {
    let kind = sniffed(bytes).unwrap();
    let (w, h) = decoded_size(bytes, kind, MAX_DECODE_BYTES).unwrap();
    let picture = decoded_picture(bytes, kind, MAX_DECODE_BYTES);
    if w > MAX_EDGE_PX || h > MAX_EDGE_PX {
        thumbnail_picture(picture, w, h, MAX_EDGE_PX)
    } else {
        picture
    }
}

/// The decoded size of `bytes` as its own header names its format, under the decode limit.
pub open spec fn decoded_of(bytes: Seq<u8>) -> Option<(u32, u32)> {
    match sniffed(bytes) {
        Some(kind) => decoded_size(bytes, kind, MAX_DECODE_BYTES),
        None => None,
    }
}

/// The size a picture of `width`×`height` is stored at: as it is, unless its long edge passes
/// [`MAX_EDGE_PX`], when it is scaled down to fit.
pub open spec fn stored_size(width: u32, height: u32) -> (u32, u32) {
    if width > MAX_EDGE_PX || height > MAX_EDGE_PX {
        thumbnail_size(width, height, MAX_EDGE_PX)
    } else {
        (width, height)
    }
}

/// What normalizing `bytes` ends in: refused as too large
/// before anything is read, as not an image by the file's own header, as unreadable when it
/// does not decode, and as too small below [`MIN_EDGE_PX`] on the short edge; otherwise stored at
/// [`stored_size`].
pub open spec fn normalized(bytes: Seq<u8>) -> Result<(u32, u32), ImageError> {
    if bytes.len() > MAX_INPUT_BYTES {
        Err(ImageError::TooLarge { got: bytes.len() as usize })
    } else {
        match sniffed(bytes) {
            None => Err(ImageError::NotAnImage),
            Some(kind) => match decoded_size(bytes, kind, MAX_DECODE_BYTES) {
                None => Err(ImageError::Undecodable),
                Some((w, h)) => if w < MIN_EDGE_PX || h < MIN_EDGE_PX {
                    Err(ImageError::TooSmall { width: w, height: h })
                } else {
                    Ok(stored_size(w, h))
                },
            },
        }
    }
}

/// Untrusted bytes taken to WebP, or why not: the size checked first, then the file's own header
/// rather than anybody's claim about it, then a decode bounded in what it may allocate, then the
/// short edge; a picture over [`MAX_EDGE_PX`] is resized rather than refused. Re-encoding from
/// the decoded pixels is what leaves any metadata behind.
pub fn normalize(bytes: &[u8]) -> (r: Result<NormalizedImage, ImageError>)
    ensures
        match normalized(bytes@) {
            Err(e) => r == Err::<NormalizedImage, ImageError>(e),
            Ok((w, h)) => r matches Ok(image) && image.width == w && image.height == h && is_webp(
                image.webp@,
            ),
        },
        r matches Ok(image) ==> (decoded_of(bytes@) matches Some((w, h)) && keeps_shape(
            w,
            h,
            image.width,
            image.height,
        )),
        r matches Ok(image) ==> image.webp@ == webp_lossless(stored_picture(bytes@), image.width, image.height),
{
    if bytes.len() > MAX_INPUT_BYTES {
        return Err(ImageError::TooLarge { got: bytes.len() });
    }
    let kind = match sniff(bytes) {
        Some(kind) => kind,
        None => return Err(ImageError::NotAnImage),
    };
    let decoded = match decode(bytes, kind, MAX_DECODE_BYTES) {
        Some(d) => d,
        None => return Err(ImageError::Undecodable),
    };
    let (width, height) = (decoded.width, decoded.height);
    if width < MIN_EDGE_PX || height < MIN_EDGE_PX {
        return Err(ImageError::TooSmall { width, height });
    }
    let bounded = if width > MAX_EDGE_PX || height > MAX_EDGE_PX {
        assert(width <= 0x400_0000 && height <= 0x400_0000) by (nonlinear_arith)
            requires
                width as int * height as int <= MAX_DECODE_BYTES as int,
                width >= 1,
                height >= 1,
        ;
        thumbnail(decoded, MAX_EDGE_PX)
    } else {
        decoded
    };
    match encode_webp(&bounded) {
        Some(webp) => Ok(NormalizedImage { webp, width: bounded.width, height: bounded.height }),
        None => Err(ImageError::Unencodable),
    }
}

} // verus!
