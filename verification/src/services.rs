//! Errors of the services that the library's workers rely on, with their messages.
//!
//! The source error behind an `Internal` error is kept as its message.

use vstd::prelude::*;

verus! {

/// Errors of the image resizing service.
#[derive(Debug)]
pub enum ResizeServiceError {
    ResizeServiceError,
    ImageFromRaw { format: &'static str },
    Internal(String),
}

impl ResizeServiceError {
    pub open spec fn spec_message(&self) -> Seq<char> {
        match self {
            ResizeServiceError::ResizeServiceError => "could not resize"@,
            ResizeServiceError::ImageFromRaw { format } => "failed to build image with format "@
                + format@,
            ResizeServiceError::Internal(_) => "internal error"@,
        }
    }

    pub fn message(&self) -> (m: String)
        ensures
            m@ == self.spec_message(),
    {
        match self {
            ResizeServiceError::ResizeServiceError => String::from_str("could not resize"),
            ResizeServiceError::ImageFromRaw { format } => String::from_str(
                "failed to build image with format ",
            ).concat(format),
            ResizeServiceError::Internal(_) => String::from_str("internal error"),
        }
    }
}

/// Errors of the image metadata store.
#[derive(Debug)]
pub enum ImageMetadataRepositoryError {
    QueryFailed { err: String },
    InvalidImageFormat,
    Internal(String),
}

impl ImageMetadataRepositoryError {
    pub open spec fn spec_message(&self) -> Seq<char> {
        match self {
            ImageMetadataRepositoryError::QueryFailed { err } => "query failed: "@ + err@,
            ImageMetadataRepositoryError::InvalidImageFormat => "invalid image format"@,
            ImageMetadataRepositoryError::Internal(_) => "internal error"@,
        }
    }

    pub fn message(&self) -> (m: String)
        ensures
            m@ == self.spec_message(),
    {
        match self {
            ImageMetadataRepositoryError::QueryFailed { err } => String::from_str(
                "query failed: ",
            ).concat(err.as_str()),
            ImageMetadataRepositoryError::InvalidImageFormat => String::from_str(
                "invalid image format",
            ),
            ImageMetadataRepositoryError::Internal(_) => String::from_str("internal error"),
        }
    }
}

/// Turns the error of a result into an internal error of the metadata store.
pub trait IntoInternal<T> {
    fn internal(self) -> Result<T, ImageMetadataRepositoryError>;
}

impl<T, E: std::fmt::Display> IntoInternal<T> for Result<T, E> {
    /// Keeps a success; an error becomes `Internal`, holding the error's message.
    fn internal(self) -> (r: Result<T, ImageMetadataRepositoryError>)
        ensures
            self is Ok <==> r is Ok,
            self matches Ok(v) ==> r == Ok::<T, ImageMetadataRepositoryError>(v),
            self matches Err(e) ==> (r matches Err(ImageMetadataRepositoryError::Internal(m))
                && vstd::string::to_string_from_display_ensures::<E>(&e, m)),
    {
        match self {
            Ok(v) => Ok(v),
            Err(e) => Err(ImageMetadataRepositoryError::Internal(e.to_string())),
        }
    }
}

/// The outcome of deleting an image's record: deleting no row means the image was not
/// there.
pub fn deletion_result(rows_affected: u64, image_id: &str) -> (result: Result<(), ImageMetadataRepositoryError>)
    ensures
        rows_affected > 0 <==> result is Ok,
        rows_affected == 0 ==> (result matches Err(ImageMetadataRepositoryError::QueryFailed { err })
            && err@ == "Image with id "@ + image_id@ + " not found"@),
{
    if rows_affected == 0 {
        return Err(ImageMetadataRepositoryError::QueryFailed {
            err: String::from_str("Image with id ").concat(image_id).concat(" not found"),
        });
    }
    Ok(())
}

/// The only row of a lookup that must find exactly one; any other count is an error.
pub fn exactly_one_row<T>(rows: Vec<T>) -> (row: Result<T, String>)
    ensures
        rows@.len() == 1 ==> row == Ok::<T, String>(rows@[0]),
        rows@.len() != 1 ==> (row matches Err(m) && m@ == "too many rows"@),
{
    if rows.len() != 1 {
        return Err(String::from_str("too many rows"));
    }
    let mut rows = rows;
    match rows.pop() {
        Some(row) => Ok(row),
        None => Err(String::from_str("too many rows")),
    }
}

/// Errors of the image store.
#[derive(Debug)]
pub enum ImageRepositoryError {
    InvalidThumbnailSize,
    ImageDoesNotExist,
    FailedToReadTimestamps,
    ImageError { err: String },
    Internal(String),
}

impl ImageRepositoryError {
    pub open spec fn spec_message(&self) -> Seq<char> {
        match self {
            ImageRepositoryError::InvalidThumbnailSize => "the requested thumbnail size is invalid"@,
            ImageRepositoryError::ImageDoesNotExist => "the requested image does not exist"@,
            ImageRepositoryError::FailedToReadTimestamps => "failed to read timestamps"@,
            ImageRepositoryError::ImageError { err } => "image error: "@ + err@,
            ImageRepositoryError::Internal(_) => "internal error"@,
        }
    }

    pub fn message(&self) -> (m: String)
        ensures
            m@ == self.spec_message(),
    {
        match self {
            ImageRepositoryError::InvalidThumbnailSize => String::from_str(
                "the requested thumbnail size is invalid",
            ),
            ImageRepositoryError::ImageDoesNotExist => String::from_str(
                "the requested image does not exist",
            ),
            ImageRepositoryError::FailedToReadTimestamps => String::from_str(
                "failed to read timestamps",
            ),
            ImageRepositoryError::ImageError { err } => String::from_str("image error: ").concat(
                err.as_str(),
            ),
            ImageRepositoryError::Internal(_) => String::from_str("internal error"),
        }
    }
}

/// Errors of the face analysis service.
#[derive(Debug)]
pub enum ImageAnalysisServiceError {
    CouldNotInfer,
    Internal(String),
}

impl ImageAnalysisServiceError {
    pub open spec fn spec_message(&self) -> Seq<char> {
        match self {
            ImageAnalysisServiceError::CouldNotInfer => "could not infer"@,
            ImageAnalysisServiceError::Internal(_) => "internal error"@,
        }
    }

    pub fn message(&self) -> (m: String)
        ensures
            m@ == self.spec_message(),
    {
        match self {
            ImageAnalysisServiceError::CouldNotInfer => String::from_str("could not infer"),
            ImageAnalysisServiceError::Internal(_) => String::from_str("internal error"),
        }
    }
}

} // verus!
