use base64::Engine;
use vstd::prelude::*;

use crate::canonical::{rgb_len, rgba_len, rgba_shaped, CanonicalImage, ImageView};

verus! {

/// What the image crate decodes from a byte buffer whose format it guesses
/// from the header: width, height and the pixels converted to RGBA8.
pub uninterp spec fn decoded_rgba(b: Seq<u8>) -> Option<(u32, u32, Seq<u8>)>;

/// The JPEG container that the image crate writes for packed RGB8 pixels at
/// its default quality.
pub uninterp spec fn jpeg_encoded(w: u32, h: u32, rgb: Seq<u8>) -> Option<Seq<u8>>;

/// The standard, padded base64 text of a byte sequence.
pub uninterp spec fn base64_text(b: Seq<u8>) -> Seq<char>;

/// The bytes that standard, padded base64 decoding gives for a text.
pub uninterp spec fn base64_bytes(s: Seq<char>) -> Option<Seq<u8>>;

/// A character of the standard base64 alphabet, or the padding `=`.
pub open spec fn is_base64_char(c: char) -> bool {
    ('A' <= c && c <= 'Z') || ('a' <= c && c <= 'z') || ('0' <= c && c <= '9') || c == '+' || c
        == '/' || c == '='
}

/// Text fit for a transport image: non-empty, whole groups of four, and
/// only base64 characters (so no whitespace).
pub open spec fn transport_shaped(s: Seq<char>) -> bool {
    s.len() > 0 && s.len() % 4 == 0 && forall|i: int| 0 <= i < s.len() ==> is_base64_char(#[trigger] s[i])
}

/// Dimensions that the JPEG encoder accepts.
pub open spec fn jpeg_dims_ok(w: u32, h: u32) -> bool {
    1 <= w <= 0xffff && 1 <= h <= 0xffff
}

/// Relies on image::load_from_memory (format guessed from the header),
/// followed by conversion of the decoded image to RGBA8 with `to_rgba8`,
/// which builds a buffer of exactly four bytes per pixel.
#[verifier::external_body]
fn load_rgba(bytes: &[u8]) -> (r: Option<(u32, u32, Vec<u8>)>)
    ensures
        match r {
            Some((w, h, px)) => decoded_rgba(bytes@) == Some((w, h, px@)) && px@.len() == rgba_len(
                w,
                h,
            ),
            None => decoded_rgba(bytes@) is None,
        },
{
    match image::load_from_memory(bytes) {
        Ok(img) => {
            let rgba = img.to_rgba8();
            Some((rgba.width(), rgba.height(), rgba.into_raw()))
        },
        Err(_) => None,
    }
}

/// Relies on image::write_buffer_with_format with the JPEG format: the
/// encoder refuses a zero or a larger-than-16-bit dimension and otherwise
/// writes a stream that starts with the start-of-image marker.
#[verifier::external_body]
fn write_jpeg(w: u32, h: u32, rgb: &[u8]) -> (r: Option<Vec<u8>>)
    requires
        rgb@.len() == rgb_len(w, h),
    ensures
        match r {
            Some(b) => jpeg_encoded(w, h, rgb@) == Some(b@) && b@.len() >= 2,
            None => jpeg_encoded(w, h, rgb@) is None,
        },
        r is Some <==> jpeg_dims_ok(w, h),
{
    let mut out: Vec<u8> = Vec::new();
    let mut cursor = std::io::Cursor::new(&mut out);
    match image::write_buffer_with_format(
        &mut cursor,
        rgb,
        w,
        h,
        image::ExtendedColorType::Rgb8,
        image::ImageFormat::Jpeg,
    ) {
        Ok(()) => Some(out),
        Err(_) => None,
    }
}

/// Relies on base64's standard engine `encode`: four padded characters per
/// started group of three bytes, all from the standard alphabet or `=`, which
/// its `decode` turns back into the bytes.
#[verifier::external_body]
fn to_base64(b: &[u8]) -> (r: String)
    ensures
        r@ == base64_text(b@),
        r@.len() == 4 * ((b@.len() + 2) / 3),
        forall|i: int| 0 <= i < r@.len() ==> is_base64_char(#[trigger] r@[i]),
        base64_bytes(r@) == Some(b@),
{
    base64::engine::general_purpose::STANDARD.encode(b)
}

/// Relies on base64's standard engine `decode`.
#[verifier::external_body]
fn from_base64(s: &str) -> (r: Option<Vec<u8>>)
    ensures
        match r {
            Some(b) => base64_bytes(s@) == Some(b@),
            None => base64_bytes(s@) is None,
        },
{
    base64::engine::general_purpose::STANDARD.decode(s).ok()
}

/// Failure of the final serialization step.
#[derive(Clone, Copy, Debug, PartialEq, Eq, Structural)]
pub enum EncodeError {
    SerializationFailure,
}

/// The RGB bytes of packed RGBA pixels: the alpha byte of each pixel is
/// dropped, never composited.
pub open spec fn rgb_of(px: Seq<u8>) -> Seq<u8> {
    Seq::new((px.len() / 4 * 3) as nat, |i: int| px[(i / 3) * 4 + i % 3])
}

/// The transport text of an image, or why there is none.
pub open spec fn encoded(v: ImageView) -> Result<Seq<char>, EncodeError> {
    match jpeg_encoded(v.0, v.1, rgb_of(v.2)) {
        Some(b) => Ok(base64_text(b)),
        None => Err(EncodeError::SerializationFailure),
    }
}

/// The RGBA8 image held in a compressed container, if it decodes to a
/// correctly sized buffer.
pub open spec fn decoded_container(b: Seq<u8>) -> Option<ImageView> {
    match decoded_rgba(b) {
        Some(v) => if rgba_shaped(v) {
            Some(v)
        } else {
            None
        },
        None => None,
    }
}

/// The RGBA8 image that a transport text stands for.
pub open spec fn decoded_transport(s: Seq<char>) -> Option<ImageView> {
    match base64_bytes(s) {
        Some(b) => decoded_container(b),
        None => None,
    }
}

/// Drops the alpha byte of each pixel.
pub fn flatten_rgb(px: &Vec<u8>) -> (r: Vec<u8>)
    requires
        px@.len() % 4 == 0,
    ensures
        r@ == rgb_of(px@),
{
    let len: usize = px.len();
    let n: usize = len / 4;
    let mut out: Vec<u8> = Vec::with_capacity(n * 3);
    let mut i: usize = 0;
    assert(4 * n == px@.len());
    while i < n
        invariant
            len == px@.len(),
            4 * n == px@.len(),
            n == px@.len() / 4,
            px@.len() % 4 == 0,
            i <= n,
            out@.len() == 3 * i,
            forall|k: int| 0 <= k < 3 * i ==> #[trigger] out@[k] == px@[(k / 3) * 4 + k % 3],
        decreases n - i,
    {
        out.push(px[4 * i]);
        out.push(px[4 * i + 1]);
        out.push(px[4 * i + 2]);
        proof {
            assert forall|k: int| 3 * i <= k < 3 * i + 3 implies #[trigger] out@[k] == px@[(k / 3)
                * 4 + k % 3] by {
                assert(k / 3 == i);
            }
        }
        i = i + 1;
    }
    assert(out@ =~= rgb_of(px@));
    out
}

/// Serializes an image to JPEG (alpha dropped) and writes the bytes as
/// standard base64 text.
pub fn encode(img: &CanonicalImage) -> (r: Result<String, EncodeError>)
    requires
        img.wf(),
    ensures
        match r {
            Ok(s) => encoded(img@) == Ok::<Seq<char>, EncodeError>(s@) && transport_shaped(s@),
            Err(e) => encoded(img@) == Err::<Seq<char>, EncodeError>(e),
        },
        r is Ok <==> jpeg_dims_ok(img.width, img.height),
        r matches Ok(s) ==> decoded_transport(s@) == decoded_container(
            jpeg_encoded(img.width, img.height, rgb_of(img.pixels@))->0,
        ),
{
    proof {
        assert(rgba_len(img.width, img.height) / 4 * 3 == rgb_len(img.width, img.height));
    }
    let rgb = flatten_rgb(&img.pixels);
    match write_jpeg(img.width, img.height, rgb.as_slice()) {
        Some(bytes) => Ok(to_base64(bytes.as_slice())),
        None => Err(EncodeError::SerializationFailure),
    }
}

/// Decodes a compressed container to RGBA8; `None` when it does not decode,
/// or decodes to a buffer of the wrong size.
pub fn decode_container(bytes: &[u8]) -> (r: Option<CanonicalImage>)
    ensures
        match r {
            Some(img) => img.wf() && decoded_container(bytes@) == Some(img@),
            None => decoded_container(bytes@) is None,
        },
{
    match load_rgba(bytes) {
        Some((w, h, px)) => Some(CanonicalImage { width: w, height: h, pixels: px }),
        None => None,
    }
}

/// Decodes a transport text back to an RGBA8 image.
pub fn decode(transport: &str) -> (r: Option<CanonicalImage>)
    ensures
        match r {
            Some(img) => img.wf() && decoded_transport(transport@) == Some(img@),
            None => decoded_transport(transport@) is None,
        },
{
    match from_base64(transport) {
        Some(bytes) => decode_container(bytes.as_slice()),
        None => None,
    }
}

} // verus!
