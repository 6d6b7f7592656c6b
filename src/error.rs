//! Errors of the service.
use vstd::prelude::*;
use crate::base64::DecodeError;

verus! {

/// `image::ImageError`: an error that the image decoder or encoder reported,
/// carried as it is.
#[verifier::external_type_specification]
#[verifier::external_body]
pub struct ExImageError(image::ImageError);

/// What can go wrong in handling a request.
#[derive(Debug)]
pub enum ApiError {
    /// The upload is not an image that can be read.
    InvalidFileFormat,
    /// The upload is larger than allowed.
    FileTooLarge,
    /// The request carried no image.
    NoFileUploaded,
    /// The image could not be decoded, encoded or processed.
    ImageProcessingFailed,
    /// Detection could not run.
    DetectionFailed,
    /// Any other failure.
    InternalError,
    /// Reading or writing a file failed; the message says how.
    IoError(String),
    /// The image library reported an error.
    ImageError(image::ImageError),
    /// The encoded image text could not be decoded.
    Base64Error(DecodeError),
}

impl ApiError {
    /// The HTTP status code that reports this error.
    pub fn status_code(&self) -> (r: u16)
        ensures
            r == match self {
                ApiError::InvalidFileFormat | ApiError::NoFileUploaded | ApiError::ImageError(_)
                | ApiError::Base64Error(_) => 400u16,
                ApiError::FileTooLarge => 413u16,
                _ => 500u16,
            },
    {
        match self {
            ApiError::InvalidFileFormat => 400,
            ApiError::FileTooLarge => 413,
            ApiError::NoFileUploaded => 400,
            ApiError::ImageProcessingFailed => 500,
            ApiError::DetectionFailed => 500,
            ApiError::InternalError => 500,
            ApiError::IoError(_) => 500,
            ApiError::ImageError(_) => 400,
            ApiError::Base64Error(_) => 400,
        }
    }
}

} // verus!
