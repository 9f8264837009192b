use photos::services::deletion_result;
use photos::config::{Config, CvConfig};
use photos::services::{
    ImageAnalysisServiceError, ImageMetadataRepositoryError, ImageRepositoryError, IntoInternal,
    ResizeServiceError,
};
use photos::workflow::{job_error_for, semaphore_closed_error, JobError, StepError, WorkflowError};
use std::path::PathBuf;

fn cv_config() -> CvConfig {
    CvConfig {
        face_detector_model_path: PathBuf::from("models/yolov12n-face.onnx"),
        face_embedder_model_path: PathBuf::from("models/facenet.onnx"),
        face_detector_image_size: 480,
        face_embedder_image_size: 160,
    }
}

#[test]
fn config_builder() {
    let config = Config::new(PathBuf::from("/lib"), cv_config());
    assert!(config.thumbnail_sizes.is_empty());
    let config = config.with_thumbnail_sizes(vec![32, 64]);
    assert_eq!(config.thumbnail_sizes, vec![32, 64]);
    assert_eq!(config.library_path, PathBuf::from("/lib"));
    assert_eq!(config.cv_config.face_detector_image_size, 480);
    assert_eq!(config.cv_config.face_embedder_model_path, PathBuf::from("models/facenet.onnx"));
}

#[test]
fn workflow_messages() {
    assert_eq!(StepError::Cancelled.message(), "Step Cancelled");
    assert_eq!(StepError::Failed("disk".to_string()).message(), "Step failed: disk");
    let job = JobError::StepFailed { step: "import", error: StepError::Cancelled };
    assert_eq!(job.message(), "Job failed at step import with error Step Cancelled");
    assert_eq!(WorkflowError::Cancelled.message(), "Workflow cancelled");
    let wf: WorkflowError = StepError::Failed("x".to_string()).into();
    assert_eq!(wf.message(), "Workflow failed at step with error Step failed: x");
    assert!(matches!(wf, WorkflowError::StepError(StepError::Failed(ref s)) if s == "x"));
}

#[test]
fn job_errors_of_step_outcomes() {
    assert!(job_error_for(Ok(Ok(()))).is_none());
    match job_error_for(Ok(Err(StepError::Cancelled))) {
        Some(JobError::StepFailed { step, error: StepError::Cancelled }) => assert_eq!(step, "unknown"),
        _ => panic!("expected a cancelled step"),
    }
    match job_error_for(Err("task panicked".to_string())) {
        Some(JobError::StepFailed { step, error: StepError::Failed(m) }) => {
            assert_eq!(step, "unknown");
            assert_eq!(m, "task panicked");
        }
        _ => panic!("expected a failed step"),
    }
    match semaphore_closed_error("thumbnails") {
        JobError::StepFailed { step, error: StepError::Failed(m) } => {
            assert_eq!(step, "thumbnails");
            assert_eq!(m, "semaphore closed");
        }
        _ => panic!("expected a failed step"),
    }
}

#[test]
fn service_error_messages() {
    assert_eq!(ResizeServiceError::ResizeServiceError.message(), "could not resize");
    assert_eq!(
        ResizeServiceError::ImageFromRaw { format: "rgba8" }.message(),
        "failed to build image with format rgba8"
    );
    assert_eq!(ResizeServiceError::Internal("x".into()).message(), "internal error");
    assert_eq!(
        ImageMetadataRepositoryError::QueryFailed { err: "no row".into() }.message(),
        "query failed: no row"
    );
    assert_eq!(ImageMetadataRepositoryError::InvalidImageFormat.message(), "invalid image format");
    assert_eq!(
        ImageRepositoryError::InvalidThumbnailSize.message(),
        "the requested thumbnail size is invalid"
    );
    assert_eq!(ImageRepositoryError::ImageDoesNotExist.message(), "the requested image does not exist");
    assert_eq!(ImageRepositoryError::FailedToReadTimestamps.message(), "failed to read timestamps");
    assert_eq!(ImageRepositoryError::ImageError { err: "bad".into() }.message(), "image error: bad");
    assert_eq!(ImageRepositoryError::Internal("y".into()).message(), "internal error");
    assert_eq!(ImageAnalysisServiceError::CouldNotInfer.message(), "could not infer");
    assert_eq!(ImageAnalysisServiceError::Internal("z".into()).message(), "internal error");
}

#[test]
fn into_internal_keeps_success_and_wraps_errors() {
    let ok: Result<u32, std::fmt::Error> = Ok(3);
    assert!(matches!(ok.internal(), Ok(3)));
    let err: Result<u32, String> = Err("broken pool".to_string());
    match err.internal() {
        Err(ImageMetadataRepositoryError::Internal(m)) => assert_eq!(m, "broken pool"),
        _ => panic!("expected an internal error"),
    }
}

#[test]
fn deleting_missing_image_fails() {
    assert!(deletion_result(1, "abc").is_ok());
    match deletion_result(0, "abc") {
        Err(ImageMetadataRepositoryError::QueryFailed { err }) => {
            assert_eq!(err, "Image with id abc not found")
        }
        _ => panic!("expected a failed query"),
    }
}

#[test]
fn lookups_need_exactly_one_row() {
    assert_eq!(photos::services::exactly_one_row(vec![7]), Ok(7));
    assert_eq!(photos::services::exactly_one_row(Vec::<u8>::new()), Err("too many rows".to_string()));
    assert_eq!(photos::services::exactly_one_row(vec![1, 2]), Err("too many rows".to_string()));
}
