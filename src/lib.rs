//! Middleware that gives every outgoing HTTP response a set of default headers,
//! each one only where the response does not already carry a header of that name.

pub mod header_map;
pub mod laws;
pub mod layer;
pub mod merge;

pub use layer::{apply_defaults, complete, DefaultHeaders, DefaultHeadersLayer, ResponseFuture};
pub use merge::merge_defaults;
