use vstd::prelude::*;

verus! {

/// Declares `chrono::ParseError`, the error of chrono's parsers; nothing inside it is read.
#[verifier::external_type_specification]
#[verifier::external_body]
pub struct ExChronoParseError(chrono::ParseError);

/// Declares `uuid::Error`, the error of uuid's parsers; nothing inside it is read.
#[verifier::external_type_specification]
#[verifier::external_body]
pub struct ExUuidError(uuid::Error);

/// Why a name or a value of the object model was refused, with a message that says which rule.
#[derive(Debug, Clone, PartialEq, Eq)]
pub enum CoreError {
    InvalidBucketName(String),
    InvalidObjectName(String),
    InvalidMetadata(String),
}

/// The errors of the crate as a whole.
#[derive(Debug)]
pub enum S3CoreError {
    InvalidXml { message: String },
    MissingField { field_name: String },
    InvalidBucketName { name: String, reason: String },
    InvalidObjectKey { key: String, reason: String },
    MetadataError { message: String },
    EncodingError { message: String },
    TimestampError { source: chrono::ParseError },
    UuidError { source: uuid::Error },
}

/// The results of the crate as a whole.
pub type Result<T> = std::result::Result<T, S3CoreError>;

impl From<chrono::ParseError> for S3CoreError {
    fn from(source: chrono::ParseError) -> (e: Self) {
        S3CoreError::TimestampError { source }
    }
}

impl vstd::std_specs::convert::FromSpecImpl<chrono::ParseError> for S3CoreError {
    open spec fn obeys_from_spec() -> bool {
        true
    }

    open spec fn from_spec(v: chrono::ParseError) -> Self {
        S3CoreError::TimestampError { source: v }
    }
}

impl From<uuid::Error> for S3CoreError {
    fn from(source: uuid::Error) -> (e: Self) {
        S3CoreError::UuidError { source }
    }
}

impl vstd::std_specs::convert::FromSpecImpl<uuid::Error> for S3CoreError {
    open spec fn obeys_from_spec() -> bool {
        true
    }

    open spec fn from_spec(v: uuid::Error) -> Self {
        S3CoreError::UuidError { source: v }
    }
}

} // verus!
