//! Filtering and batching core of a parallel file-tree walker.
pub mod order;
pub mod extension_filter;
pub mod exclusion;
pub mod batch;
pub mod filter;
pub mod options;
pub mod laws;
