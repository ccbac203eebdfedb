use vstd::prelude::*;

verus! {

/// Number of bytes of a packed RGBA8 buffer of `w` by `h` pixels.
pub open spec fn rgba_len(w: u32, h: u32) -> int {
    w as int * h as int * 4
}

/// Number of bytes of a packed RGB8 buffer of `w` by `h` pixels.
pub open spec fn rgb_len(w: u32, h: u32) -> int {
    w as int * h as int * 3
}

/// Mathematical model of an image: width, height and its packed bytes.
pub type ImageView = (u32, u32, Seq<u8>);

/// Whether a model is a well-formed RGBA8 image.
pub open spec fn rgba_shaped(v: ImageView) -> bool {
    v.2.len() == rgba_len(v.0, v.1)
}

/// An unprocessed frame buffer as handed over by the capture facility,
/// whose pixel layout is not known.
pub struct RawFrame {
    pub width: u32,
    pub height: u32,
    pub bytes: Vec<u8>,
}

/// A normalized image: packed RGBA8 pixels, row by row.
pub struct CanonicalImage {
    pub width: u32,
    pub height: u32,
    pub pixels: Vec<u8>,
}

impl View for CanonicalImage {
    type V = ImageView;

    open spec fn view(&self) -> ImageView {
        (self.width, self.height, self.pixels@)
    }
}

impl CanonicalImage {
    /// The buffer holds exactly four bytes per pixel.
    pub open spec fn wf(&self) -> bool {
        rgba_shaped(self@)
    }

    /// Width in pixels.
    pub fn width(&self) -> (r: u32)
        ensures
            r == self.width,
    {
        self.width
    }

    /// Height in pixels.
    pub fn height(&self) -> (r: u32)
        ensures
            r == self.height,
    {
        self.height
    }

    /// The packed RGBA8 bytes.
    pub fn pixels(&self) -> (r: &Vec<u8>)
        ensures
            r@ == self.pixels@,
    {
        &self.pixels
    }
}

/// Computes `w * h * 4` when it fits in `usize`.
pub fn rgba_len_checked(w: u32, h: u32) -> (r: Option<usize>)
    ensures
        match r {
            Some(n) => n == rgba_len(w, h),
            None => rgba_len(w, h) > usize::MAX,
        },
{
    proof {
        assert(0 <= w as int * h as int <= 0xffff_ffff_ffff_ffff) by (nonlinear_arith)
            requires
                w <= 0xffff_ffff,
                h <= 0xffff_ffff,
        ;
    }
    let n: u128 = (w as u128) * (h as u128) * 4;
    if n <= usize::MAX as u128 {
        Some(n as usize)
    } else {
        None
    }
}

} // verus!
