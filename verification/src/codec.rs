//! The image codec bridge: from stored image bytes to the text that embeds
//! them in a document, and to the raw samples that fill a page.

use vstd::prelude::*;
use base64::Engine;

verus! {

/// The standard base64 text of a byte string, with padding.
pub uninterp spec fn base64_standard(bytes: Seq<u8>) -> Seq<char>;

/// True for the letters, digits and signs of the standard base64 alphabet,
/// and for the padding sign.
pub open spec fn is_base64_char(c: char) -> bool {
    ('A' <= c && c <= 'Z') || ('a' <= c && c <= 'z') || ('0' <= c && c <= '9') || c == '+' || c
        == '/' || c == '='
}

/// True when every character of `s` belongs to the base64 alphabet.
pub open spec fn is_base64_text(s: Seq<char>) -> bool {
    forall|i: int| 0 <= i < s.len() ==> is_base64_char(#[trigger] s[i])
}

/// The length of the base64 text of `len` bytes: four characters for every
/// three bytes or part of three.
pub open spec fn base64_len(len: nat) -> nat {
    4 * ((len + 2) / 3)
}

/// True when the base64 text of `len` bytes has a length that this machine
/// can count.
pub open spec fn encodable(len: nat) -> bool {
    (len / 3) * 4 + 4 <= usize::MAX
}

/// Encodes bytes as standard base64 with padding.
///
/// Trusted: calls `Engine::encode` of the `base64` crate on its `STANDARD`
/// engine. The contract names the text that the crate returns and states of
/// it what the crate documents: its length, and that it is drawn from the
/// standard alphabet and the padding sign. The crate panics when that length
/// overflows, which the precondition rules out.
#[verifier::external_body]
fn base64_encode(bytes: &[u8]) -> (text: String)
    requires
        encodable(bytes@.len()),
    ensures
        text@ == base64_standard(bytes@),
        text@.len() == base64_len(bytes@.len()),
        is_base64_text(text@),
{
    base64::engine::general_purpose::STANDARD.encode(bytes)
}

/// Encodes the bytes of an image for embedding in a document.
///
/// The text is the standard base64 form of the bytes, unchanged in content,
/// so the same bytes always give the same text. `None` when the bytes are so
/// many that the length of the text cannot be counted.
pub fn encode_for_embedding(bytes: &[u8]) -> (text: Option<String>)
    ensures
        text is Some <==> encodable(bytes@.len()),
        text matches Some(t) ==> t@ == base64_standard(bytes@) && t@.len() == base64_len(
            bytes@.len(),
        ) && is_base64_text(t@),
{
    if bytes.len() / 3 <= (usize::MAX - 4) / 4 {
        Some(base64_encode(bytes))
    } else {
        None
    }
}

/// A decoded image: its size in pixels and its samples, three per pixel
/// (red, green, blue), row by row.
#[derive(Debug)]
pub struct RasterImage {
    pub width: u32,
    pub height: u32,
    pub rgb_pixels: Vec<u8>,
}

/// The view of a [`RasterImage`].
pub struct RasterImageView {
    pub width: u32,
    pub height: u32,
    pub rgb_pixels: Seq<u8>,
}

impl View for RasterImage {
    type V = RasterImageView;

    open spec fn view(&self) -> RasterImageView {
        RasterImageView { width: self.width, height: self.height, rgb_pixels: self.rgb_pixels@ }
    }
}

impl DeepView for RasterImage {
    type V = RasterImageView;

    open spec fn deep_view(&self) -> RasterImageView {
        self@
    }
}

impl RasterImageView {
    /// The number of samples that an image of this size holds.
    pub open spec fn sample_count(self) -> nat {
        (self.width * self.height * 3) as nat
    }

    /// True when the image holds exactly the samples of its size.
    pub open spec fn well_formed(self) -> bool {
        self.rgb_pixels.len() == self.sample_count()
    }

    /// True when the image is well formed and has at least one pixel.
    pub open spec fn drawable(self) -> bool {
        self.well_formed() && self.width > 0 && self.height > 0
    }
}

impl RasterImage {
    /// The number of samples that an image of this size holds.
    pub open spec fn sample_count(&self) -> nat {
        self@.sample_count()
    }

    /// True when the image holds exactly the samples of its size.
    pub open spec fn well_formed(&self) -> bool {
        self@.well_formed()
    }

    /// Decides whether the image holds exactly the samples of its size and
    /// has at least one pixel.
    pub fn is_drawable(&self) -> (ok: bool)
        ensures
            ok == self@.drawable(),
    {
        let width: u128 = self.width as u128;
        let height: u128 = self.height as u128;
        assert(0 <= width * height <= 0xFFFF_FFFF * 0xFFFF_FFFF) by (nonlinear_arith)
            requires
                0 <= width <= 0xFFFF_FFFF,
                0 <= height <= 0xFFFF_FFFF,
        ;
        let needed: u128 = width * height * 3;
        assert(needed == self.sample_count()) by {
            assert(width * height * 3 == self.width * self.height * 3) by (nonlinear_arith)
                requires
                    width == self.width,
                    height == self.height,
            ;
        }
        self.width > 0 && self.height > 0 && (self.rgb_pixels.len() as u128) == needed
    }
}

/// Why an image could not be decoded, in words.
#[derive(Debug)]
pub struct DecodeError {
    pub cause: String,
}

/// What the decoder makes of image bytes, taking their format from the
/// signature they begin with: the image in red, green and blue samples as
/// the decoder lays them out, or the decoder's description of why the bytes
/// are no image that it can read.
pub uninterp spec fn decoded_rgb8(bytes: Seq<u8>) -> Result<RasterImageView, Seq<char>>;

/// An image with its samples cut down to those of its size; an image with
/// fewer samples than that as it is.
pub open spec fn trimmed(img: RasterImageView) -> RasterImageView {
    if img.rgb_pixels.len() >= img.sample_count() {
        RasterImageView {
            width: img.width,
            height: img.height,
            rgb_pixels: img.rgb_pixels.take(img.sample_count() as int),
        }
    } else {
        img
    }
}

/// What decoding makes of image bytes: the decoder's image, trimmed, or
/// the decoder's description of the failure.
pub open spec fn decode_outcome(bytes: Seq<u8>) -> Result<RasterImageView, Seq<char>> {
    match decoded_rgb8(bytes) {
        Ok(img) => Ok(trimmed(img)),
        Err(cause) => Err(cause),
    }
}

/// Decodes image bytes into red, green and blue samples.
///
/// Trusted: calls three functions of the `image` crate that compute. The
/// format comes from `guess_format`, which holds the first bytes against a
/// constant table of signatures. The image comes from
/// `load_from_memory_with_format`, which takes the built-in decoder of that
/// format with limits that are constants. The samples come from `to_rgb8`.
/// None of the three looks at the hooks that a process can register with the
/// crate, nor at anything else but the bytes; so the contract names what
/// they return. Of an image the body moves `width`, `height` and the buffer
/// (`into_raw`); of an error it takes the text that the error's `Display`
/// writes. Of a decoded image the contract claims what the crate's buffer
/// type guarantees: at least three samples for every pixel.
#[verifier::external_body]
fn decode_rgb8(bytes: &[u8]) -> (r: Result<RasterImage, String>)
    ensures
        match r {
            Ok(img) => decoded_rgb8(bytes@) == Ok::<RasterImageView, Seq<char>>(img@)
                && img.rgb_pixels@.len() >= img.sample_count(),
            Err(cause) => decoded_rgb8(bytes@) == Err::<RasterImageView, Seq<char>>(cause@),
        },
{
    let loaded = match image::guess_format(bytes) {
        Ok(format) => image::load_from_memory_with_format(bytes, format),
        Err(e) => Err(e),
    };
    match loaded {
        Ok(decoded) => Ok(
            RasterImage {
                width: decoded.width(),
                height: decoded.height(),
                rgb_pixels: decoded.to_rgb8().into_raw(),
            },
        ),
        Err(e) => Err(format!("{}", e)),
    }
}

/// Cuts the samples of an image down to those of its size. An image with
/// fewer samples than its size asks for is returned as it is.
pub fn trim_samples(img: RasterImage) -> (out: RasterImage)
    ensures
        out@ == trimmed(img@),
        img.rgb_pixels@.len() >= img.sample_count() ==> out.well_formed(),
{
    let mut img = img;
    let width: u128 = img.width as u128;
    let height: u128 = img.height as u128;
    assert(0 <= width * height <= 0xFFFF_FFFF * 0xFFFF_FFFF) by (nonlinear_arith)
        requires
            0 <= width <= 0xFFFF_FFFF,
            0 <= height <= 0xFFFF_FFFF,
    ;
    let needed: u128 = width * height * 3;
    assert(needed == img.sample_count()) by {
        assert(width * height * 3 == img.width * img.height * 3) by (nonlinear_arith)
            requires
                width == img.width,
                height == img.height,
        ;
    }
    if (img.rgb_pixels.len() as u128) >= needed {
        img.rgb_pixels.truncate(needed as usize);
    }
    img
}

/// Decodes the bytes of a stored image into a fixed three-channel
/// representation. An alpha channel, if the image has one, is dropped.
///
/// Succeeds exactly on the bytes that the decoder reads as an image, and
/// then returns the decoder's image with exactly three samples for each of
/// its pixels. Fails with the decoder's description on all other bytes. The
/// same bytes always give the same result.
pub fn decode(bytes: &[u8]) -> (r: Result<RasterImage, DecodeError>)
    ensures
        match r {
            Ok(img) => decode_outcome(bytes@) == Ok::<RasterImageView, Seq<char>>(img@)
                && img.well_formed(),
            Err(e) => decode_outcome(bytes@) == Err::<RasterImageView, Seq<char>>(e.cause@),
        },
{
    match decode_rgb8(bytes) {
        Ok(img) => Ok(trim_samples(img)),
        Err(cause) => Err(DecodeError { cause }),
    }
}

} // verus!
