use vstd::arithmetic::div_mod::lemma_fundamental_div_mod_converse;
use vstd::prelude::*;

use crate::canonical::{rgba_len, CanonicalImage, ImageView};
use crate::codec::{
    decode, decoded_transport, encode, encoded, jpeg_dims_ok, transport_shaped, EncodeError,
};

verus! {

/// Why a region could not be cut out of a transport image.
#[derive(Clone, Copy, Debug, PartialEq, Eq, Structural)]
pub enum CropError {
    /// The text is not base64 of a decodable image.
    DecodeFailure,
    /// The rectangle does not lie within the decoded image.
    OutOfBounds { x: i32, y: i32, width: u32, height: u32 },
    /// The cropped image could not be serialized.
    EncodeFailure(EncodeError),
}

/// The rectangle at (`x`, `y`) of `cw` by `ch` pixels lies within an image
/// of `w` by `h` pixels.
pub open spec fn rect_within(x: i32, y: i32, cw: u32, ch: u32, w: u32, h: u32) -> bool {
    0 <= x && 0 <= y && x as int + cw as int <= w as int && y as int + ch as int <= h as int
}

/// Byte `j` of the region of width `cw` whose top-left corner is (`x`, `y`).
pub open spec fn crop_byte(v: ImageView, x: int, y: int, cw: u32, j: int) -> u8 {
    let p = j / 4;
    v.2[((y + p / cw as int) * v.0 as int + x + p % cw as int) * 4 + j % 4]
}

/// The region of `cw` by `ch` pixels whose top-left corner is (`x`, `y`).
pub open spec fn cropped(v: ImageView, x: int, y: int, cw: u32, ch: u32) -> ImageView {
    (cw, ch, Seq::new(rgba_len(cw, ch) as nat, |j: int| crop_byte(v, x, y, cw, j)))
}

/// The transport text of a region of the image that a transport text holds.
pub open spec fn crop_result(s: Seq<char>, x: i32, y: i32, cw: u32, ch: u32) -> Result<
    Seq<char>,
    CropError,
> {
    match decoded_transport(s) {
        None => Err(CropError::DecodeFailure),
        Some(v) => if !rect_within(x, y, cw, ch, v.0, v.1) {
            Err(CropError::OutOfBounds { x, y, width: cw, height: ch })
        } else {
            match encoded(cropped(v, x as int, y as int, cw, ch)) {
                Ok(t) => Ok(t),
                Err(e) => Err(CropError::EncodeFailure(e)),
            }
        },
    }
}

proof fn lemma_out_index(r: int, c: int, k: int, cw: int)
    requires
        0 <= r,
        0 <= c < cw,
        0 <= k < 4,
    ensures
        ((r * cw + c) * 4 + k) / 4 == r * cw + c,
        ((r * cw + c) * 4 + k) % 4 == k,
        (r * cw + c) / cw == r,
        (r * cw + c) % cw == c,
{
    assert(r * cw >= 0) by (nonlinear_arith)
        requires
            r >= 0,
            cw > 0,
    ;
    lemma_fundamental_div_mod_converse((r * cw + c) * 4 + k, 4, r * cw + c, k);
    lemma_fundamental_div_mod_converse(r * cw + c, cw, r, c);
}

proof fn lemma_src_index(w: int, h: int, col: int, row: int, k: int)
    requires
        0 <= col < w,
        0 <= row < h,
        0 <= k < 4,
    ensures
        0 <= row * w,
        row * w + col < w * h,
        0 <= (row * w + col) * 4 + k < w * h * 4,
{
    assert(row * w + col < w * h && (row * w + col) * 4 + k < w * h * 4 && 0 <= row * w)
        by (nonlinear_arith)
        requires
            0 <= col < w,
            0 <= row < h,
            0 <= k < 4,
    ;
}

/// Copies the region of `cw` by `ch` pixels at (`x`, `y`) out of an image.
pub fn crop_image(img: &CanonicalImage, x: u32, y: u32, cw: u32, ch: u32) -> (r: CanonicalImage)
    requires
        img.wf(),
        x as int + cw as int <= img.width as int,
        y as int + ch as int <= img.height as int,
    ensures
        r.wf(),
        r@ == cropped(img@, x as int, y as int, cw, ch),
{
    let mut out: Vec<u8> = Vec::new();
    let mut r: u32 = 0;
    while r < ch
        invariant
            img.wf(),
            x as int + cw as int <= img.width as int,
            y as int + ch as int <= img.height as int,
            r <= ch,
            out@.len() == r as int * cw as int * 4,
            forall|j: int|
                0 <= j < out@.len() ==> #[trigger] out@[j] == crop_byte(
                    img@,
                    x as int,
                    y as int,
                    cw,
                    j,
                ),
        decreases ch - r,
    {
        let mut c: u32 = 0;
        while c < cw
            invariant
                img.wf(),
                x as int + cw as int <= img.width as int,
                y as int + ch as int <= img.height as int,
                r < ch,
                c <= cw,
                out@.len() == (r as int * cw as int + c as int) * 4,
                forall|j: int|
                    0 <= j < out@.len() ==> #[trigger] out@[j] == crop_byte(
                        img@,
                        x as int,
                        y as int,
                        cw,
                        j,
                    ),
            decreases cw - c,
        {
            let row: usize = y as usize + r as usize;
            let col: usize = x as usize + c as usize;
            proof {
                lemma_src_index(img.width as int, img.height as int, col as int, row as int, 3);
            }
            let len: usize = img.pixels.len();
            let base: usize = (row * img.width as usize + col) * 4;
            assert(base + 3 < len);
            let ghost before = out@.len();
            out.push(img.pixels[base]);
            out.push(img.pixels[base + 1]);
            out.push(img.pixels[base + 2]);
            out.push(img.pixels[base + 3]);
            proof {
                assert forall|j: int| before <= j < before + 4 implies #[trigger] out@[j]
                    == crop_byte(img@, x as int, y as int, cw, j) by {
                    lemma_out_index(r as int, c as int, j - before, cw as int);
                }
            }
            c = c + 1;
        }
        proof {
            assert((r as int * cw as int + cw as int) * 4 == (r as int + 1) * cw as int * 4)
                by (nonlinear_arith);
        }
        r = r + 1;
    }
    assert(ch as int * cw as int * 4 == rgba_len(cw, ch)) by (nonlinear_arith);
    let res = CanonicalImage { width: cw, height: ch, pixels: out };
    assert(res.pixels@ =~= cropped(img@, x as int, y as int, cw, ch).2);
    res
}

/// Decodes a transport text, cuts out the rectangle at (`x`, `y`) of
/// `width` by `height` pixels, and encodes that region the same way. A
/// rectangle that does not lie within the decoded image is refused.
pub fn crop_region(transport: &str, x: i32, y: i32, width: u32, height: u32) -> (r: Result<
    String,
    CropError,
>)
    ensures
        match r {
            Ok(s) => crop_result(transport@, x, y, width, height) == Ok::<Seq<char>, CropError>(
                s@,
            ),
            Err(e) => crop_result(transport@, x, y, width, height) == Err::<Seq<char>, CropError>(
                e,
            ),
        },
        r is Ok <==> (decoded_transport(transport@) matches Some(v) && rect_within(
            x,
            y,
            width,
            height,
            v.0,
            v.1,
        ) && jpeg_dims_ok(width, height)),
        r matches Ok(s) ==> transport_shaped(s@),
{
    let img = match decode(transport) {
        Some(img) => img,
        None => {
            return Err(CropError::DecodeFailure);
        },
    };
    if x < 0 || y < 0 || x as u64 + width as u64 > img.width as u64 || y as u64 + height as u64
        > img.height as u64 {
        return Err(CropError::OutOfBounds { x, y, width, height });
    }
    let region = crop_image(&img, x as u32, y as u32, width, height);
    match encode(&region) {
        Ok(s) => Ok(s),
        Err(e) => Err(CropError::EncodeFailure(e)),
    }
}

/// A crop succeeds only for a rectangle within the decoded image (so its
/// output is never truncated), and a rectangle that is not within it gets
/// `OutOfBounds`.
pub proof fn lemma_crop_bounds(s: Seq<char>, x: i32, y: i32, cw: u32, ch: u32)
    ensures
        crop_result(s, x, y, cw, ch) is Ok ==> (decoded_transport(s) matches Some(v) && rect_within(
            x,
            y,
            cw,
            ch,
            v.0,
            v.1,
        )),
        (decoded_transport(s) matches Some(v) && !rect_within(x, y, cw, ch, v.0, v.1)) ==> crop_result(
            s,
            x,
            y,
            cw,
            ch,
        ) == Err::<Seq<char>, CropError>(CropError::OutOfBounds { x, y, width: cw, height: ch }),
{
}

/// A non-empty rectangle that lies wholly outside the decoded image gets
/// `OutOfBounds`.
pub proof fn lemma_crop_fully_outside(s: Seq<char>, x: i32, y: i32, cw: u32, ch: u32)
    requires
        cw > 0,
        ch > 0,
        decoded_transport(s) matches Some(v) && (x >= v.0 || y >= v.1 || x + cw <= 0 || y + ch
            <= 0),
    ensures
        crop_result(s, x, y, cw, ch) == Err::<Seq<char>, CropError>(
            CropError::OutOfBounds { x, y, width: cw, height: ch },
        ),
{
}

} // verus!
