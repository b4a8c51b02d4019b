//! Verified core of a batch image processing and photo numbering tool.

pub mod text;
pub mod paths;
pub mod image_ops;
pub mod numbering;
pub mod ocr;
pub mod sort;
pub mod batch;
pub mod cache;
