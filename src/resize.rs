use vstd::prelude::*;

use crate::canonical::{rgba_len, CanonicalImage};

verus! {

/// The longest edge, in pixels, that a constrained image may have.
pub const MAX_EDGE: u32 = 2000;

/// Relies on image::imageops::resize with the Lanczos3 filter, which returns
/// a fresh buffer of exactly `nw` by `nh` pixels. Its pixel values rest on
/// `f32::sin`, whose precision std leaves open, so nothing is said of them.
/// The input is wrapped with `RgbaImage::from_raw`, which gives `None` only
/// for a buffer shorter than `w * h * 4` bytes.
#[verifier::external_body]
fn resample_lanczos(w: u32, h: u32, px: &Vec<u8>, nw: u32, nh: u32) -> (r: Option<Vec<u8>>)
    requires
        1 <= nw <= MAX_EDGE,
        1 <= nh <= MAX_EDGE,
    ensures
        px@.len() == rgba_len(w, h) ==> r is Some,
        r matches Some(v) ==> v@.len() == rgba_len(nw, nh),
{
    match image::RgbaImage::from_raw(w, h, px.clone()) {
        Some(src) => Some(
            image::imageops::resize(&src, nw, nh, image::imageops::FilterType::Lanczos3).into_raw(),
        ),
        None => None,
    }
}

/// `short * MAX_EDGE / long`, rounded to the nearest integer (halves up),
/// and at least 1.
pub open spec fn scaled_edge(short: u32, long: u32) -> int {
    let s = (short as int * (2 * MAX_EDGE) + long as int) / (2 * long as int);
    if s < 1 {
        1
    } else {
        s
    }
}

/// The dimensions that an image of `w` by `h` pixels is brought to when its
/// longer edge exceeds `MAX_EDGE`: the longer edge becomes `MAX_EDGE` and
/// the aspect ratio is kept.
pub open spec fn scaled_dims(w: u32, h: u32) -> (u32, u32) {
    if w >= h {
        (MAX_EDGE, scaled_edge(h, w) as u32)
    } else {
        (scaled_edge(w, h) as u32, MAX_EDGE)
    }
}

/// Whether an image's longer edge exceeds `MAX_EDGE`.
pub open spec fn oversized(w: u32, h: u32) -> bool {
    w > MAX_EDGE || h > MAX_EDGE
}

/// The dimensions of an image of `w` by `h` pixels once constrained.
pub open spec fn constrained_dims(w: u32, h: u32) -> (u32, u32) {
    if oversized(w, h) {
        scaled_dims(w, h)
    } else {
        (w, h)
    }
}

proof fn lemma_scaled_edge_bounds(short: u32, long: u32)
    requires
        short <= long,
        0 < long,
    ensures
        1 <= scaled_edge(short, long) <= MAX_EDGE,
{
    let num = short as int * (2 * MAX_EDGE) + long as int;
    let den = 2 * long as int;
    assert(num < (MAX_EDGE as int + 1) * den) by (nonlinear_arith)
        requires
            num == short as int * (2 * MAX_EDGE) + long as int,
            den == 2 * long as int,
            short <= long,
            0 < long,
    ;
    assert(num / den <= MAX_EDGE) by (nonlinear_arith)
        requires
            num < (MAX_EDGE as int + 1) * den,
            den > 0,
            num >= 0,
    ;
}

/// The edge scaled down to `MAX_EDGE`'s proportion.
pub fn scale_edge(short: u32, long: u32) -> (r: u32)
    requires
        short <= long,
        0 < long,
    ensures
        r == scaled_edge(short, long),
        1 <= r <= MAX_EDGE,
{
    proof {
        lemma_scaled_edge_bounds(short, long);
        assert(short as int * 4000 <= 0xffff_ffff * 4000) by (nonlinear_arith)
            requires
                short <= 0xffff_ffff,
        ;
    }
    let s: u64 = ((short as u64) * (2 * MAX_EDGE as u64) + long as u64) / (2 * long as u64);
    if s < 1 {
        1
    } else {
        s as u32
    }
}

/// Downscales an image whose longer edge exceeds `MAX_EDGE` so that this
/// edge becomes exactly `MAX_EDGE` (Lanczos3, aspect ratio kept); any other
/// image is returned unchanged.
pub fn constrain(img: CanonicalImage) -> (r: CanonicalImage)
    requires
        img.wf(),
    ensures
        r.wf(),
        (r.width, r.height) == constrained_dims(img.width, img.height),
        !oversized(img.width, img.height) ==> r@ == img@,
{
    if img.width > MAX_EDGE || img.height > MAX_EDGE {
        let (nw, nh) = if img.width >= img.height {
            (MAX_EDGE, scale_edge(img.height, img.width))
        } else {
            (scale_edge(img.width, img.height), MAX_EDGE)
        };
        let px = resample_lanczos(img.width, img.height, &img.pixels, nw, nh).unwrap();
        CanonicalImage { width: nw, height: nh, pixels: px }
    } else {
        img
    }
}

/// Constraining is idempotent: constrained dimensions are within
/// `MAX_EDGE`, so `constrain` hands such an image back unchanged.
pub proof fn lemma_constrain_idempotent(w: u32, h: u32)
    ensures
        !oversized(constrained_dims(w, h).0, constrained_dims(w, h).1),
        constrained_dims(constrained_dims(w, h).0, constrained_dims(w, h).1) == constrained_dims(
            w,
            h,
        ),
{
    if oversized(w, h) {
        if w >= h {
            lemma_scaled_edge_bounds(h, w);
        } else {
            lemma_scaled_edge_bounds(w, h);
        }
    }
}

} // verus!
