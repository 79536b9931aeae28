use s3_core::bucket::{Bucket, BucketError, VersioningStatus};
use s3_core::clock::UtcTime;
use s3_core::error::CoreError;

#[test]
fn test_create_valid_bucket() {
    let bucket = Bucket::new("my-test-bucket").unwrap();
    assert_eq!(bucket.name.as_str(), "my-test-bucket");
    assert_eq!(bucket.versioning_status, VersioningStatus::Disabled);
    assert!(bucket.tags.is_empty());
    assert_eq!(bucket.object_count, 0);
}

#[test]
fn test_bucket_versioning_lifecycle() {
    let mut bucket = Bucket::new("versioned-bucket").unwrap();

    bucket.enable_versioning();
    assert_eq!(bucket.versioning_status, VersioningStatus::Enabled);

    bucket.suspend_versioning();
    assert_eq!(bucket.versioning_status, VersioningStatus::Suspended);

    bucket.disable_versioning();
    assert_eq!(bucket.versioning_status, VersioningStatus::Suspended);

    bucket.enable_versioning();
    bucket.disable_versioning();
    assert_eq!(bucket.versioning_status, VersioningStatus::Suspended);
}

#[test]
fn test_bucket_tags() {
    let mut bucket = Bucket::new("tagged-bucket").unwrap();

    bucket.add_tag("Environment".to_string(), "Production".to_string()).unwrap();
    bucket.add_tag("Team".to_string(), "Backend".to_string()).unwrap();

    assert_eq!(bucket.tags.len(), 2);
    assert_eq!(bucket.tags.get("Environment"), Some(&"Production".to_string()));

    bucket.remove_tag("Team");
    assert_eq!(bucket.tags.len(), 1);

    let result = bucket.add_tag("".to_string(), "val".to_string());
    assert!(result.is_err());
}

#[test]
fn test_bucket_metrics() {
    let mut bucket = Bucket::new("metrics-bucket").unwrap();

    bucket.increment_object_count(1024);
    bucket.increment_object_count(2048);

    assert_eq!(bucket.object_count, 2);
    assert_eq!(bucket.total_size, 3072);

    bucket.decrement_object_count(1024);
    assert_eq!(bucket.object_count, 1);
    assert_eq!(bucket.total_size, 2048);
}

#[test]
fn bucket_name_errors() {
    assert_eq!(
        Bucket::new("Bad"),
        Err(BucketError::InvalidName(CoreError::InvalidBucketName(
            "must start with lowercase letter or digit".to_string()
        )))
    );
    assert_eq!(Bucket::new("ab"), Err(BucketError::InvalidNameLength(2)));
    assert!(Bucket::new("abc").is_ok());
    assert!(Bucket::new(&"a".repeat(63)).is_ok());
    assert_eq!(
        Bucket::new(&"a".repeat(64)),
        Err(BucketError::InvalidName(CoreError::InvalidBucketName(
            "length must be 1-63".to_string()
        )))
    );
}

#[test]
fn bucket_tag_errors() {
    let mut bucket = Bucket::new("tag-errors").unwrap();
    assert_eq!(
        bucket.add_tag("k".repeat(129), "v".to_string()),
        Err(BucketError::InvalidTagKey("k".repeat(129)))
    );
    assert_eq!(
        bucket.add_tag("k".to_string(), "v".repeat(257)),
        Err(BucketError::InvalidTagValue("v".repeat(257)))
    );
    // Unlike a tag set, a bucket takes any characters in a key and more than ten tags.
    for i in 0..12 {
        bucket.add_tag(format!("key*{}", i), String::new()).unwrap();
    }
    assert_eq!(bucket.tags.len(), 12);
}

#[test]
fn decrement_never_goes_below_zero() {
    let mut bucket = Bucket::new("empty-bucket").unwrap();
    bucket.decrement_object_count(10);
    assert_eq!(bucket.object_count, 0);
    assert_eq!(bucket.total_size, 0);
    bucket.increment_object_count(5);
    bucket.decrement_object_count(10);
    assert_eq!(bucket.object_count, 0);
    assert_eq!(bucket.total_size, 0);
}

#[test]
fn increment_then_decrement_restores_counters() {
    let mut bucket = Bucket::new("roundtrip").unwrap();
    bucket.increment_object_count(7);
    let (count, size) = (bucket.object_count, bucket.total_size);
    bucket.increment_object_count(100);
    bucket.decrement_object_count(100);
    assert_eq!((bucket.object_count, bucket.total_size), (count, size));
}

#[test]
fn versioning_rules() {
    let mut bucket = Bucket::new("versions").unwrap();
    assert!(!bucket.is_versioned());
    bucket.suspend_versioning();
    assert_eq!(bucket.versioning_status, VersioningStatus::Disabled);
    bucket.disable_versioning();
    assert_eq!(bucket.versioning_status, VersioningStatus::Disabled);
    bucket.enable_versioning();
    assert!(bucket.is_versioned());
    bucket.increment_object_count(1);
    bucket.disable_versioning();
    assert_eq!(bucket.versioning_status, VersioningStatus::Enabled);
}

#[test]
fn bucket_location_and_clock() {
    let bucket = Bucket::new("located").unwrap().with_location("eu-west-1".to_string());
    assert_eq!(bucket.location_constraint, Some("eu-west-1".to_string()));
    // Buckets are made after 2020-01-01.
    assert!(bucket.creation_date.secs > 1_577_836_800);
    assert!(bucket.creation_date.nanos < 1_000_000_000);
}

#[test]
fn bucket_made_at_a_given_time() {
    let t = UtcTime { secs: 1_700_000_000, nanos: 5 };
    let bucket = Bucket::new_at("timed-bucket", t).unwrap();
    assert_eq!(bucket.creation_date, t);
    assert_eq!(bucket.versioning_status, VersioningStatus::Disabled);
    assert_eq!(Bucket::new_at("x", t), Err(BucketError::InvalidNameLength(1)));
}
