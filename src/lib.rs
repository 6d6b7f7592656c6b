//! Region and codec pipeline of a face detection service: a text-safe
//! binary codec, rectangle clamping against image bounds, cropping and
//! annotation of pixel buffers, and the orchestration that ties them together.
pub mod annotate;
pub mod base64;
pub mod config;
pub mod detector;
pub mod error;
pub mod geometry;
pub mod pipeline;
pub mod raster;
pub mod text;
pub mod transport;

pub use config::AppConfig;
pub use detector::{DetectionResult, Face, FaceDetector};
pub use error::ApiError;
pub use pipeline::{CropResponse, DetectionResponse};
