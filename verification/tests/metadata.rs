use s3_core::clock::UtcTime;
use s3_core::metadata::{MetadataError, ObjectMetadata};
use s3_core::types::{ETag, ObjectName};

#[test]
fn test_create_valid_metadata() {
    let key = ObjectName::new("test.txt").unwrap();
    let etag = ETag::new("\"d41d8cd98f00b204e9800998ecf8427e\"").unwrap();
    let meta = ObjectMetadata::new(key.clone(), 1024, etag, "text/plain".to_string()).unwrap();

    assert_eq!(meta.size, 1024);
    assert_eq!(meta.content_type, "text/plain");
    assert!(meta.user_metadata.is_empty());
}

#[test]
fn test_user_metadata_limits() {
    let key = ObjectName::new("test.txt").unwrap();
    let etag = ETag::new("\"abc\"").unwrap();
    let mut meta =
        ObjectMetadata::new(key, 0, etag, "application/octet-stream".to_string()).unwrap();

    let long_key = "k".repeat(1025);
    assert!(meta.insert_user_metadata(long_key, "val".to_string()).is_err());

    let long_val = "v".repeat(4097);
    assert!(meta.insert_user_metadata("key".to_string(), long_val).is_err());
}

#[test]
fn user_metadata_errors_and_reads() {
    let key = ObjectName::new("a/b").unwrap();
    let mut meta =
        ObjectMetadata::new(key, 3, ETag::from_hash("h"), "text/plain".to_string()).unwrap();
    assert_eq!(
        meta.insert_user_metadata("k".repeat(1025), "v".repeat(5000)),
        Err(MetadataError::KeyTooLong("k".repeat(1025)))
    );
    assert_eq!(
        meta.insert_user_metadata("k".to_string(), "v".repeat(4097)),
        Err(MetadataError::ValueTooLong("v".repeat(4097)))
    );
    assert!(meta.insert_user_metadata("k".repeat(1024), "v".repeat(4096)).is_ok());
    assert!(meta.insert_user_metadata("owner".to_string(), "alice".to_string()).is_ok());
    assert_eq!(meta.user_metadata.get("owner"), Some(&"alice".to_string()));
    assert_eq!(meta.user_metadata.len(), 2);
    assert!(meta.validate().is_ok());
    let meta = meta.with_content_encoding("gzip".to_string());
    assert_eq!(meta.content_encoding, Some("gzip".to_string()));
    assert_eq!(meta.etag.as_str(), "\"h\"");
}

#[test]
fn metadata_made_at_a_given_time() {
    let t = UtcTime { secs: 42, nanos: 0 };
    let key = ObjectName::new("k").unwrap();
    let meta = ObjectMetadata::new_at(key, 1, ETag::from_hash("h"), "a/b".to_string(), t).unwrap();
    assert_eq!(meta.last_modified, t);
    assert_eq!(meta.content_encoding, None);
}
