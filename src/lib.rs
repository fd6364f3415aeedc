//! Content search over enumerated paths: mode dispatch, match strategies,
//! content adapters and output sinks with running statistics.
pub mod adapters;
pub mod dispatch;
pub mod finders;
pub mod json_path_search;
pub mod laws;
pub mod pdf_search;
pub mod printer;
pub mod text;
pub mod zip_search;
