//! Verified core of a photo library: the priority task queue's scheduling rules,
//! the image-format codes of the metadata store, the grouping of face detections
//! into clusters, the integer side of face clustering, and the pure decisions of the
//! import, gallery and image-store screens.

pub mod clustering;
pub mod config;
pub mod face_clusters;
pub mod gallery_layout;
pub mod image_format;
pub mod import_filter;
pub mod import_flow;
pub mod scheduler;
pub mod services;
pub mod storage;
pub mod task;
pub mod triple_queue;
pub mod workflow;
