use s3_core::error::CoreError;
use s3_core::types::{BucketName, ETag, ObjectName, RequestId, VersionId};

fn bucket_error(name: &str) -> String {
    match BucketName::new(name) {
        Err(CoreError::InvalidBucketName(m)) => m,
        other => panic!("expected a refusal of {:?}, got {:?}", name, other),
    }
}

#[test]
fn bucket_name_rules() {
    assert_eq!(BucketName::new("my.bucket-1").unwrap().as_str(), "my.bucket-1");
    assert_eq!(BucketName::new("a").unwrap().to_string(), "a");
    assert_eq!(bucket_error(""), "length must be 1-63");
    assert_eq!(bucket_error(&"a".repeat(64)), "length must be 1-63");
    assert_eq!(bucket_error("-abc"), "must start with lowercase letter or digit");
    assert_eq!(bucket_error("abc-"), "must end with lowercase letter or digit");
    assert_eq!(bucket_error("a..b"), "cannot have consecutive dots or hyphens with dots");
    assert_eq!(bucket_error("a.-b"), "cannot have consecutive dots or hyphens with dots");
    assert_eq!(bucket_error("a-.b"), "cannot have consecutive dots or hyphens with dots");
    assert_eq!(bucket_error("a_b"), "only lowercase letters, digits, dots, and hyphens allowed");
    assert_eq!(bucket_error("aBc"), "only lowercase letters, digits, dots, and hyphens allowed");
    // 32 two-byte characters are 64 bytes.
    assert_eq!(bucket_error(&format!("a{}b", "é".repeat(31))), "length must be 1-63");
    assert!(BucketName::new("a--b").is_ok());
}

#[test]
fn object_name_rules() {
    assert_eq!(ObjectName::new("x").unwrap().as_str(), "x");
    assert!(ObjectName::new(&"o".repeat(1024)).is_ok());
    assert_eq!(
        ObjectName::new(""),
        Err(CoreError::InvalidObjectName("length must be 1-1024".to_string()))
    );
    assert_eq!(
        ObjectName::new(&"o".repeat(1025)),
        Err(CoreError::InvalidObjectName("length must be 1-1024".to_string()))
    );
    assert_eq!(ObjectName::new("dir/file").unwrap().to_string(), "dir/file");
}

#[test]
fn etag_is_quoted_once() {
    assert_eq!(ETag::new("abc").unwrap().as_str(), "\"abc\"");
    assert_eq!(ETag::new("\"abc\"").unwrap().as_str(), "\"abc\"");
    assert_eq!(ETag::new("\"\"abc\"").unwrap().as_str(), "\"abc\"");
    assert_eq!(ETag::new("a\"b").unwrap().as_str(), "\"a\"b\"");
    assert!(ETag::new(&"e".repeat(64)).is_ok());
    let refused = Err(CoreError::InvalidMetadata("invalid etag format".to_string()));
    assert_eq!(ETag::new(""), refused);
    assert_eq!(ETag::new("\"\"\""), refused);
    assert_eq!(ETag::new(&"e".repeat(65)), refused);
}

#[test]
fn etag_new_is_idempotent() {
    let once = ETag::new("\"\"d41d8\"").unwrap();
    let twice = ETag::new(once.as_str()).unwrap();
    assert_eq!(once, twice);
    assert_eq!(twice.to_string(), "\"d41d8\"");
}

#[test]
fn etag_from_hash_agrees_with_new() {
    assert_eq!(ETag::from_hash("d41d8"), ETag::new("d41d8").unwrap());
    assert_eq!(ETag::from_hash("").as_str(), "\"\"");
}

fn is_hyphenated_uuid(s: &str) -> bool {
    s.len() == 36
        && s.chars().enumerate().all(|(i, c)| {
            if i == 8 || i == 13 || i == 18 || i == 23 {
                c == '-'
            } else {
                c.is_ascii_digit() || ('a'..='f').contains(&c)
            }
        })
}

#[test]
fn version_ids() {
    let v = VersionId::new();
    assert!(is_hyphenated_uuid(v.as_str()));
    assert_eq!(v.as_str().chars().nth(14), Some('4'));
    assert!(matches!(v.as_str().chars().nth(19), Some('8' | '9' | 'a' | 'b')));
    assert_ne!(VersionId::new(), v);
    let w = VersionId::from_string("null");
    assert_eq!(w.as_str(), "null");
    assert_eq!(w.to_string(), "null");
}

#[test]
fn request_ids() {
    let r = RequestId::new();
    let text = r.to_string();
    assert!(is_hyphenated_uuid(&text));
    assert_eq!(text.chars().nth(14), Some('4'));
    assert!(matches!(text.chars().nth(19), Some('8' | '9' | 'a' | 'b')));
    let d = RequestId::default().to_string();
    assert_eq!(d.chars().nth(14), Some('4'));
    assert_eq!(text, r.as_uuid().to_string());
    assert_ne!(RequestId::default(), r);
}
