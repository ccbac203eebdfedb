use vstd::prelude::*;

use crate::canonical::{rgb_len, rgba_len, rgba_len_checked, CanonicalImage, ImageView, RawFrame};
use crate::codec::{decode_container, decoded_container};

verus! {

/// A guess at how a raw frame's bytes are laid out.
#[derive(Clone, Copy, Debug, PartialEq, Eq, Structural)]
pub enum PixelFormatHypothesis {
    /// Packed RGBA8, taken as it is.
    Rgba8,
    /// Packed RGB8, widened with an opaque alpha byte.
    Rgb8,
    /// A self-describing compressed image (PNG, JPEG, ...).
    CompressedContainer,
    /// Packed BGRA8, reordered to RGBA8.
    BgraFallback,
}

/// No hypothesis produced a correctly sized RGBA8 buffer.
#[derive(Clone, Copy, Debug, PartialEq, Eq, Structural)]
pub enum NormalizationError {
    UnsupportedLength { observed_len: usize, width: u32, height: u32 },
}

/// Number of hypotheses in the cascade.
pub const CASCADE_LEN: usize = 4;

/// The fixed priority order in which hypotheses are tried.
pub open spec fn hypothesis_at(i: int) -> PixelFormatHypothesis {
    if i == 0 {
        PixelFormatHypothesis::Rgba8
    } else if i == 1 {
        PixelFormatHypothesis::Rgb8
    } else if i == 2 {
        PixelFormatHypothesis::CompressedContainer
    } else {
        PixelFormatHypothesis::BgraFallback
    }
}

/// RGB triplets widened to RGBA with alpha 255, order preserved.
pub open spec fn expand_rgb(src: Seq<u8>) -> Seq<u8> {
    Seq::new(
        (src.len() / 3 * 4) as nat,
        |i: int|
            if i % 4 == 3 {
                255u8
            } else {
                src[(i / 4) * 3 + i % 4]
            },
    )
}

/// BGRA quadruplets reordered to RGBA.
pub open spec fn swap_bgra(src: Seq<u8>) -> Seq<u8> {
    Seq::new(
        src.len(),
        |i: int|
            if i % 4 == 0 {
                src[i + 2]
            } else if i % 4 == 2 {
                src[i - 2]
            } else {
                src[i]
            },
    )
}

/// What one hypothesis makes of a buffer reported as `w` by `h` pixels.
pub open spec fn attempt(hyp: PixelFormatHypothesis, w: u32, h: u32, b: Seq<u8>) -> Option<
    ImageView,
> {
    match hyp {
        PixelFormatHypothesis::Rgba8 => if b.len() == rgba_len(w, h) {
            Some((w, h, b))
        } else {
            None
        },
        PixelFormatHypothesis::Rgb8 => if b.len() == rgb_len(w, h) {
            Some((w, h, expand_rgb(b)))
        } else {
            None
        },
        PixelFormatHypothesis::CompressedContainer => decoded_container(b),
        PixelFormatHypothesis::BgraFallback => if b.len() == rgba_len(w, h) {
            Some((w, h, swap_bgra(b)))
        } else {
            None
        },
    }
}

/// The first hypothesis from position `i` on that succeeds.
pub open spec fn cascade_from(i: int, w: u32, h: u32, b: Seq<u8>) -> Option<ImageView>
    decreases CASCADE_LEN - i,
{
    if i < 0 || i >= CASCADE_LEN {
        None
    } else {
        match attempt(hypothesis_at(i), w, h, b) {
            Some(v) => Some(v),
            None => cascade_from(i + 1, w, h, b),
        }
    }
}

/// Reported dimensions that are not rejected up front: both positive, and
/// an RGBA8 buffer of that size is addressable.
pub open spec fn dims_admissible(w: u32, h: u32) -> bool {
    w > 0 && h > 0 && rgba_len(w, h) <= usize::MAX
}

/// The canonical image of a raw frame, or the error it gets.
pub open spec fn normalized(w: u32, h: u32, b: Seq<u8>) -> Result<ImageView, NormalizationError> {
    let err = NormalizationError::UnsupportedLength {
        observed_len: b.len() as usize,
        width: w,
        height: h,
    };
    if !dims_admissible(w, h) {
        Err(err)
    } else {
        match cascade_from(0, w, h, b) {
            Some(v) => Ok(v),
            None => Err(err),
        }
    }
}

/// The hypothesis at position `i` of the cascade.
pub fn cascade_hypothesis(i: usize) -> (r: PixelFormatHypothesis)
    requires
        i < CASCADE_LEN,
    ensures
        r == hypothesis_at(i as int),
{
    if i == 0 {
        PixelFormatHypothesis::Rgba8
    } else if i == 1 {
        PixelFormatHypothesis::Rgb8
    } else if i == 2 {
        PixelFormatHypothesis::CompressedContainer
    } else {
        PixelFormatHypothesis::BgraFallback
    }
}

/// Widens packed RGB8 to RGBA8 with an opaque alpha byte after each triplet.
pub fn expand_rgb_pixels(src: &Vec<u8>) -> (r: Vec<u8>)
    requires
        src@.len() % 3 == 0,
        src@.len() / 3 * 4 <= usize::MAX,
    ensures
        r@ == expand_rgb(src@),
{
    let len: usize = src.len();
    let n: usize = len / 3;
    let mut out: Vec<u8> = Vec::with_capacity(n * 4);
    let mut i: usize = 0;
    while i < n
        invariant
            len == src@.len(),
            3 * n == len,
            n * 4 <= usize::MAX,
            i <= n,
            out@.len() == 4 * i,
            forall|k: int|
                0 <= k < 4 * i ==> #[trigger] out@[k] == (if k % 4 == 3 {
                    255u8
                } else {
                    src@[(k / 4) * 3 + k % 4]
                }),
        decreases n - i,
    {
        out.push(src[3 * i]);
        out.push(src[3 * i + 1]);
        out.push(src[3 * i + 2]);
        out.push(255u8);
        proof {
            assert forall|k: int| 4 * i <= k < 4 * i + 4 implies #[trigger] out@[k] == (if k % 4
                == 3 {
                255u8
            } else {
                src@[(k / 4) * 3 + k % 4]
            }) by {
                assert(k / 4 == i);
            }
        }
        i = i + 1;
    }
    assert(out@ =~= expand_rgb(src@));
    out
}

/// Reorders packed BGRA8 to RGBA8.
pub fn swap_bgra_pixels(src: &Vec<u8>) -> (r: Vec<u8>)
    requires
        src@.len() % 4 == 0,
    ensures
        r@ == swap_bgra(src@),
{
    let len: usize = src.len();
    let n: usize = len / 4;
    let mut out: Vec<u8> = Vec::with_capacity(len);
    let mut i: usize = 0;
    while i < n
        invariant
            len == src@.len(),
            4 * n == len,
            i <= n,
            out@.len() == 4 * i,
            forall|k: int| 0 <= k < 4 * i ==> #[trigger] out@[k] == swap_bgra(src@)[k],
        decreases n - i,
    {
        out.push(src[4 * i + 2]);
        out.push(src[4 * i + 1]);
        out.push(src[4 * i]);
        out.push(src[4 * i + 3]);
        proof {
            assert forall|k: int| 4 * i <= k < 4 * i + 4 implies #[trigger] out@[k] == swap_bgra(
                src@,
            )[k] by {
                assert(k / 4 == i);
            }
        }
        i = i + 1;
    }
    assert(out@ =~= swap_bgra(src@));
    out
}

/// Applies one hypothesis to a frame whose dimensions are admissible.
pub fn try_hypothesis(hyp: PixelFormatHypothesis, frame: &RawFrame) -> (r: Option<CanonicalImage>)
    requires
        dims_admissible(frame.width, frame.height),
    ensures
        match r {
            Some(img) => img.wf() && attempt(hyp, frame.width, frame.height, frame.bytes@) == Some(
                img@,
            ),
            None => attempt(hyp, frame.width, frame.height, frame.bytes@) is None,
        },
{
    let w = frame.width;
    let h = frame.height;
    let full: usize = match rgba_len_checked(w, h) {
        Some(n) => n,
        None => {
            return None;
        },
    };
    let len: usize = frame.bytes.len();
    match hyp {
        PixelFormatHypothesis::Rgba8 => {
            if len == full {
                let img = CanonicalImage { width: w, height: h, pixels: frame.bytes.clone() };
                assert(img.pixels@ =~= frame.bytes@);
                Some(img)
            } else {
                None
            }
        },
        PixelFormatHypothesis::Rgb8 => {
            if len == full / 4 * 3 {
                let px = expand_rgb_pixels(&frame.bytes);
                Some(CanonicalImage { width: w, height: h, pixels: px })
            } else {
                None
            }
        },
        PixelFormatHypothesis::CompressedContainer => decode_container(frame.bytes.as_slice()),
        PixelFormatHypothesis::BgraFallback => {
            if len == full {
                let px = swap_bgra_pixels(&frame.bytes);
                Some(CanonicalImage { width: w, height: h, pixels: px })
            } else {
                None
            }
        },
    }
}

/// Classifies a raw frame by its length and converts it to RGBA8: the
/// hypotheses are tried in their fixed order and the first that succeeds
/// wins. Zero dimensions, or dimensions whose RGBA8 size overflows, fail
/// before anything is allocated.
pub fn normalize(frame: RawFrame) -> (r: Result<CanonicalImage, NormalizationError>)
    ensures
        match r {
            Ok(img) => img.wf() && normalized(frame.width, frame.height, frame.bytes@) == Ok::<
                ImageView,
                NormalizationError,
            >(img@),
            Err(e) => normalized(frame.width, frame.height, frame.bytes@) == Err::<
                ImageView,
                NormalizationError,
            >(e),
        },
{
    let err = NormalizationError::UnsupportedLength {
        observed_len: frame.bytes.len(),
        width: frame.width,
        height: frame.height,
    };
    if frame.width == 0 || frame.height == 0 {
        return Err(err);
    }
    if rgba_len_checked(frame.width, frame.height).is_none() {
        return Err(err);
    }
    let mut i: usize = 0;
    while i < CASCADE_LEN
        invariant
            dims_admissible(frame.width, frame.height),
            i <= CASCADE_LEN,
            cascade_from(0, frame.width, frame.height, frame.bytes@) == cascade_from(
                i as int,
                frame.width,
                frame.height,
                frame.bytes@,
            ),
        decreases CASCADE_LEN - i,
    {
        match try_hypothesis(cascade_hypothesis(i), &frame) {
            Some(img) => {
                return Ok(img);
            },
            None => {},
        }
        i = i + 1;
    }
    Err(err)
}

/// A buffer of exactly four bytes per pixel is taken as RGBA8, unchanged.
pub proof fn lemma_rgba_kept(w: u32, h: u32, b: Seq<u8>)
    requires
        w > 0,
        h > 0,
        b.len() == rgba_len(w, h),
        b.len() <= usize::MAX,
    ensures
        normalized(w, h, b) == Ok::<ImageView, NormalizationError>((w, h, b)),
{
}

/// A buffer of exactly three bytes per pixel becomes RGBA8 in which each
/// pixel keeps its source triplet in order and has alpha 255. Dimensions
/// whose RGBA8 size would overflow are left out: they are rejected up front.
pub proof fn lemma_rgb_widened(w: u32, h: u32, b: Seq<u8>)
    requires
        w > 0,
        h > 0,
        b.len() == rgb_len(w, h),
        rgba_len(w, h) <= usize::MAX,
    ensures
        normalized(w, h, b) matches Ok(v) && v.0 == w && v.1 == h && v.2.len() == rgba_len(w, h)
            && (forall|p: int, k: int|
            0 <= p < w as int * h as int && 0 <= k < 3 ==> #[trigger] v.2[4 * p + k] == b[3 * p
                + k]) && (forall|p: int|
            0 <= p < w as int * h as int ==> #[trigger] v.2[4 * p + 3] == 255u8),
{
    reveal_with_fuel(cascade_from, 3);
    let v = expand_rgb(b);
    assert(v.len() == rgba_len(w, h));
    assert(b.len() != rgba_len(w, h)) by (nonlinear_arith)
        requires
            w > 0,
            h > 0,
            b.len() == rgb_len(w, h),
    ;
    assert forall|p: int, k: int| 0 <= p < w as int * h as int && 0 <= k < 3 implies #[trigger] v[4
        * p + k] == b[3 * p + k] by {
        assert((4 * p + k) / 4 == p);
        assert((4 * p + k) % 4 == k);
    }
    assert forall|p: int| 0 <= p < w as int * h as int implies #[trigger] v[4 * p + 3] == 255u8 by {
        assert((4 * p + 3) % 4 == 3);
    }
}

/// A buffer that matches neither packed size but holds a decodable
/// container yields the container's own image, whatever dimensions were
/// reported.
pub proof fn lemma_container_dims(w: u32, h: u32, b: Seq<u8>)
    requires
        dims_admissible(w, h),
        b.len() != rgba_len(w, h),
        b.len() != rgb_len(w, h),
        decoded_container(b) is Some,
    ensures
        normalized(w, h, b) == Ok::<ImageView, NormalizationError>(decoded_container(b)->0),
{
    reveal_with_fuel(cascade_from, 3);
}

/// Zero dimensions, or dimensions whose RGBA8 size overflows `usize`, are
/// rejected before any hypothesis is tried.
pub proof fn lemma_inadmissible_fails_fast(w: u32, h: u32, b: Seq<u8>)
    requires
        w == 0 || h == 0 || rgba_len(w, h) > usize::MAX,
        b.len() <= usize::MAX,
    ensures
        normalized(w, h, b) == Err::<ImageView, NormalizationError>(
            NormalizationError::UnsupportedLength { observed_len: b.len() as usize, width: w, height: h },
        ),
{
}

/// A buffer that matches neither packed size and does not decode is
/// reported with its length and the reported dimensions.
pub proof fn lemma_unsupported(w: u32, h: u32, b: Seq<u8>)
    requires
        b.len() != rgba_len(w, h),
        b.len() != rgb_len(w, h),
        decoded_container(b) is None,
        b.len() <= usize::MAX,
    ensures
        normalized(w, h, b) == Err::<ImageView, NormalizationError>(
            NormalizationError::UnsupportedLength { observed_len: b.len() as usize, width: w, height: h },
        ),
{
    reveal_with_fuel(cascade_from, 5);
}

} // verus!
