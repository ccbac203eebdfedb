use vstd::prelude::*;

use crate::canonical::{rgba_len, ImageView, RawFrame};
use crate::codec::{encode, encoded, jpeg_dims_ok, transport_shaped, EncodeError};
use crate::normalize::{normalize, normalized, NormalizationError};
use crate::resize::{constrain, constrained_dims, oversized};

verus! {

/// Why a raw frame could not be turned into transport text.
#[derive(Clone, Copy, Debug, PartialEq, Eq, Structural)]
pub enum PipelineError {
    Normalization(NormalizationError),
    Encode(EncodeError),
}

/// What the pipeline returns for a normalized image `v`. The constrained
/// image's dimensions decide whether encoding succeeds. Its text is the
/// encoding of some RGBA8 image of those dimensions, and of `v` itself when
/// `v` needed no resizing. The resampled pixels are not pinned down: they
/// depend on floating-point sine, whose precision is platform-dependent.
pub open spec fn transport_outcome(v: ImageView, r: Result<String, PipelineError>) -> bool {
    let (cw, ch) = constrained_dims(v.0, v.1);
    match r {
        Ok(s) => jpeg_dims_ok(cw, ch) && transport_shaped(s@) && (exists|px: Seq<u8>|
            px.len() == rgba_len(cw, ch) && #[trigger] encoded((cw, ch, px)) == Ok::<
                Seq<char>,
                EncodeError,
            >(s@)) && (!oversized(v.0, v.1) ==> encoded(v) == Ok::<Seq<char>, EncodeError>(s@)),
        Err(e) => !jpeg_dims_ok(cw, ch) && e == PipelineError::Encode(
            EncodeError::SerializationFailure,
        ),
    }
}

/// Runs a captured frame through normalization, the size constraint and
/// the encoder.
pub fn frame_to_transport(frame: RawFrame) -> (r: Result<String, PipelineError>)
    ensures
        normalized(frame.width, frame.height, frame.bytes@) matches Err(e) ==> r == Err::<
            String,
            PipelineError,
        >(PipelineError::Normalization(e)),
        normalized(frame.width, frame.height, frame.bytes@) matches Ok(v) ==> transport_outcome(
            v,
            r,
        ),
{
    let img = match normalize(frame) {
        Ok(img) => img,
        Err(e) => {
            return Err(PipelineError::Normalization(e));
        },
    };
    let ghost v = img@;
    let img = constrain(img);
    match encode(&img) {
        Ok(s) => {
            assert(img.pixels@.len() == rgba_len(img.width, img.height) && encoded(
                (img.width, img.height, img.pixels@),
            ) == Ok::<Seq<char>, EncodeError>(s@));
            Ok(s)
        },
        Err(e) => Err(PipelineError::Encode(e)),
    }
}

} // verus!
