//! The object model of an S3-style store: bucket and object names, entity tags,
//! version and request identifiers, buckets with their tags and counters, object
//! metadata, tag sets and lifecycle rules.

pub mod bucket;
pub mod clock;
pub mod error;
pub mod kvmap;
pub mod lifecycle;
pub mod metadata;
pub mod tagging;
pub mod text;
pub mod types;

pub use bucket::Bucket;
pub use error::{Result, S3CoreError};
pub use types::{ETag, VersionId};
