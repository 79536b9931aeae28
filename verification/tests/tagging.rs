use s3_core::tagging::{Tag, TagSet, TaggingError};

#[test]
fn test_valid_tag_creation() {
    let tag = Tag::new("Environment".to_string(), "Production".to_string()).unwrap();
    assert_eq!(tag.key, "Environment");
    assert_eq!(tag.value, "Production");
}

#[test]
fn test_tag_key_too_long() {
    let long_key = "k".repeat(129);
    assert!(Tag::new(long_key, "val".to_string()).is_err());
}

#[test]
fn test_tag_value_too_long() {
    let long_val = "v".repeat(257);
    assert!(Tag::new("key".to_string(), long_val).is_err());
}

#[test]
fn test_tag_set_limit() {
    let mut tag_set = TagSet::new();
    for i in 0..10 {
        tag_set.insert(format!("key{}", i), format!("val{}", i)).unwrap();
    }
    assert!(tag_set.insert("extra".to_string(), "value".to_string()).is_err());
}

#[test]
fn test_tag_set_validation() {
    let mut tag_set = TagSet::new();
    tag_set.insert("Project".to_string(), "S3Mock".to_string()).unwrap();
    assert!(tag_set.validate().is_ok());
    assert_eq!(tag_set.len(), 1);
    assert_eq!(tag_set.get("Project"), Some(&"S3Mock".to_string()));
}

#[test]
fn tag_errors_name_the_first_rule_broken() {
    assert_eq!(Tag::new(String::new(), "v".to_string()), Err(TaggingError::InvalidKeyFormat));
    let long_key = "k".repeat(129);
    assert_eq!(
        Tag::new(long_key.clone(), "v".repeat(300)),
        Err(TaggingError::KeyTooLong(long_key))
    );
    assert_eq!(
        Tag::new("key".to_string(), "v".repeat(257)),
        Err(TaggingError::ValueTooLong("v".repeat(257)))
    );
    assert_eq!(Tag::new("bad!key".to_string(), "v".to_string()), Err(TaggingError::InvalidKeyFormat));
}

#[test]
fn tag_length_limits_are_inclusive_and_count_bytes() {
    assert!(Tag::new("k".repeat(128), "v".repeat(256)).is_ok());
    // "é" takes two bytes: 65 of them make 130 bytes.
    let wide = "é".repeat(65);
    assert_eq!(Tag::new(wide.clone(), "v".to_string()), Err(TaggingError::KeyTooLong(wide)));
}

#[test]
fn tag_key_characters() {
    assert!(Tag::new("a-b_c.d/e:f+g=h@i j".to_string(), String::new()).is_ok());
    assert!(Tag::new("Größe".to_string(), "x".to_string()).is_ok());
    assert!(Tag::new("日本".to_string(), "x".to_string()).is_ok());
    assert!(Tag::new("a*b".to_string(), "x".to_string()).is_err());
    assert!(Tag::new("tab\tkey".to_string(), "x".to_string()).is_err());
}

#[test]
fn full_tag_set_refuses_even_known_key() {
    let mut tag_set = TagSet::with_capacity(3);
    for i in 0..10 {
        tag_set.insert(format!("key{}", i), format!("val{}", i)).unwrap();
    }
    assert_eq!(
        tag_set.insert("key3".to_string(), "new".to_string()),
        Err(TaggingError::TooManyTags)
    );
    assert_eq!(tag_set.get("key3"), Some(&"val3".to_string()));
    assert_eq!(tag_set.len(), 10);
}

#[test]
fn tag_set_insert_replaces_and_remove_restores() {
    let mut tag_set = TagSet::default();
    assert!(tag_set.is_empty());
    tag_set.insert("b".to_string(), "1".to_string()).unwrap();
    tag_set.insert("a".to_string(), "2".to_string()).unwrap();
    tag_set.insert("b".to_string(), "3".to_string()).unwrap();
    assert_eq!(tag_set.len(), 2);
    assert_eq!(tag_set.get("b"), Some(&"3".to_string()));
    let pairs: Vec<(String, String)> =
        tag_set.iter().into_iter().map(|(k, v)| (k.clone(), v.clone())).collect();
    assert_eq!(
        pairs,
        vec![("a".to_string(), "2".to_string()), ("b".to_string(), "3".to_string())]
    );
    assert_eq!(tag_set.remove("a"), Some("2".to_string()));
    assert_eq!(tag_set.remove("a"), None);
    assert_eq!(tag_set.get("a"), None);
    assert_eq!(tag_set.len(), 1);
    let copy = tag_set.clone();
    assert_eq!(copy.get("b"), Some(&"3".to_string()));
}

#[test]
fn refused_tag_insert_keeps_set() {
    let mut tag_set = TagSet::new();
    tag_set.insert("k".to_string(), "v".to_string()).unwrap();
    assert_eq!(
        tag_set.insert(String::new(), "v".to_string()),
        Err(TaggingError::InvalidKeyFormat)
    );
    assert_eq!(tag_set.len(), 1);
    assert!(tag_set.validate().is_ok());
}
