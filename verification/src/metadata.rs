use vstd::prelude::*;

use crate::clock::{now_utc, UtcTime};
use crate::kvmap::KeyValueMap;
use crate::text::{byte_len, byte_length};
use crate::types::{ETag, ObjectName};

verus! {

/// Why object metadata was refused.
#[derive(Debug, Clone, PartialEq, Eq)]
pub enum MetadataError {
    /// The content length given is not valid.
    InvalidContentLength(i64),
    /// The time of last modification is not valid.
    InvalidTimestamp,
    /// A user metadata key is longer than 1024 bytes.
    KeyTooLong(String),
    /// A user metadata value is longer than 4096 bytes.
    ValueTooLong(String),
}

/// What is known of a stored object: its key, size, entity tag, time of last
/// modification, content type and encoding, and metadata that users set.
#[derive(Debug, Clone, PartialEq)]
pub struct ObjectMetadata {
    pub key: ObjectName,
    pub size: u64,
    pub etag: ETag,
    pub last_modified: UtcTime,
    pub content_type: String,
    pub content_encoding: Option<String>,
    pub user_metadata: KeyValueMap,
}

/// What `insert_user_metadata` answers for a key and a value.
pub open spec fn user_metadata_outcome(key: String, value: String) -> Result<(), MetadataError> {
    if byte_len(key@) > 1024 {
        Err(MetadataError::KeyTooLong(key))
    } else if byte_len(value@) > 4096 {
        Err(MetadataError::ValueTooLong(value))
    } else {
        Ok(())
    }
}

impl ObjectMetadata {
    /// Metadata for an object modified now, without content encoding or user metadata.
    /// It is never refused. The clock is read once and the rest is `new_at`.
    pub fn new(key: ObjectName, size: u64, etag: ETag, content_type: String) -> (r: Result<
        Self,
        MetadataError,
    >)
        ensures
            r matches Ok(m) && m.key == key && m.size == size && m.etag == etag && m.content_type
                == content_type && m.content_encoding is None && m.last_modified.secs >= 0
                && m.last_modified.nanos < 1_000_000_000 && m.user_metadata@ == Map::<
                Seq<char>,
                Seq<char>,
            >::empty(),
    {
        let now = now_utc();
        ObjectMetadata::new_at(key, size, etag, content_type, now)
    }

    /// Metadata for an object last modified at `now`, without content encoding or user
    /// metadata. It is never refused.
    pub fn new_at(key: ObjectName, size: u64, etag: ETag, content_type: String, now: UtcTime) -> (r:
        Result<Self, MetadataError>)
        ensures
            r matches Ok(m) && m.key == key && m.size == size && m.etag == etag && m.content_type
                == content_type && m.content_encoding is None && m.last_modified == now
                && m.user_metadata@ == Map::<Seq<char>, Seq<char>>::empty(),
    {
        Ok(
            ObjectMetadata {
                key,
                size,
                etag,
                last_modified: now,
                content_type,
                content_encoding: None,
                user_metadata: KeyValueMap::new(),
            },
        )
    }

    /// The same metadata with the given content encoding.
    pub fn with_content_encoding(self, encoding: String) -> (m: Self)
        ensures
            m == (ObjectMetadata { content_encoding: Some(encoding), ..self }),
    {
        let mut m = self;
        m.content_encoding = Some(encoding);
        m
    }

    /// Sets a user metadata entry. Refused when the key is over 1024 bytes or the
    /// value over 4096 bytes.
    pub fn insert_user_metadata(&mut self, key: String, value: String) -> (r: Result<
        (),
        MetadataError,
    >)
        ensures
            r == user_metadata_outcome(key, value),
            final(self).user_metadata@ == (if r is Ok {
                old(self).user_metadata@.insert(key@, value@)
            } else {
                old(self).user_metadata@
            }),
            final(self).key == old(self).key,
            final(self).size == old(self).size,
            final(self).etag == old(self).etag,
            final(self).last_modified == old(self).last_modified,
            final(self).content_type == old(self).content_type,
            final(self).content_encoding == old(self).content_encoding,
    {
        if byte_length(key.as_str()) > 1024 {
            return Err(MetadataError::KeyTooLong(key));
        }
        if byte_length(value.as_str()) > 4096 {
            return Err(MetadataError::ValueTooLong(value));
        }
        let _ = self.user_metadata.insert(key, value);
        Ok(())
    }

    /// Checks the metadata; every metadata passes. An empty object is allowed.
    pub fn validate(&self) -> (r: Result<(), MetadataError>)
        ensures
            r is Ok,
    {
        Ok(())
    }
}

} // verus!
