//! Rust source: normalization and syntax extraction.
pub mod calls;
pub mod docs;
pub mod extract;
pub mod file;
pub mod impls;
pub mod items;
pub mod markers;
pub mod normalize;
pub mod paths;
pub mod resolve;
pub mod scope;
pub mod tree;

pub use crate::languages::rust::extract::content_signature;
pub use crate::languages::rust::file::extract_file_source;
pub use crate::languages::rust::normalize::{normalize_code, normalize_file_code};
