//! A verified screen-capture pipeline: classify a raw frame buffer by its
//! length, normalize it to RGBA8, bound its size, and encode it as base64 JPEG
//! text; plus cropping of previously encoded images.

pub mod canonical;
pub mod codec;
pub mod crop;
pub mod normalize;
pub mod pipeline;
pub mod resize;

pub use canonical::{CanonicalImage, RawFrame};
pub use codec::{decode, encode, EncodeError};
pub use crop::{crop_region, CropError};
pub use normalize::{normalize, NormalizationError, PixelFormatHypothesis};
pub use pipeline::{frame_to_transport, PipelineError};
pub use resize::{constrain, MAX_EDGE};
