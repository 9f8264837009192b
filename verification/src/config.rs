//! Configuration of a photo library.

use std::path::PathBuf;
use vstd::prelude::*;

verus! {

/// `std`'s owned path, carried opaquely.
#[verifier::external_type_specification]
#[verifier::external_body]
pub struct ExPathBuf(PathBuf);

/// Where the face models live and the image sizes they take.
pub struct CvConfig {
    pub face_detector_model_path: PathBuf,
    pub face_embedder_model_path: PathBuf,
    pub face_detector_image_size: u32,
    pub face_embedder_image_size: u32,
}

/// Where a library lives, which thumbnail sizes it keeps, and its face models.
pub struct Config {
    pub library_path: PathBuf,
    pub thumbnail_sizes: Vec<u32>,
    pub cv_config: CvConfig,
}

impl Config {
    /// A configuration that keeps no thumbnail sizes.
    pub fn new(library_path: PathBuf, cv_config: CvConfig) -> (config: Self)
        ensures
            config.library_path == library_path,
            config.thumbnail_sizes@ == Seq::<u32>::empty(),
            config.cv_config == cv_config,
    {
        Self { library_path, thumbnail_sizes: Vec::new(), cv_config }
    }

    /// The same configuration with the given thumbnail sizes in place of the old ones.
    pub fn with_thumbnail_sizes(self, thumbnail_sizes: Vec<u32>) -> (config: Self)
        ensures
            config.library_path == self.library_path,
            config.thumbnail_sizes == thumbnail_sizes,
            config.cv_config == self.cv_config,
    {
        Self { thumbnail_sizes, ..self }
    }
}

} // verus!
