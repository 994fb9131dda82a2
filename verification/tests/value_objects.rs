use object_store_server::value_objects::{BucketName, ObjectKey, VersionId};

#[test]
fn test_valid_bucket_names() {
    assert!(BucketName::new("my-bucket".to_string()).is_ok());
    assert!(BucketName::new("bucket123".to_string()).is_ok());
    assert!(BucketName::new("123bucket".to_string()).is_ok());
    assert!(BucketName::new("my-bucket-123".to_string()).is_ok());
}

#[test]
fn test_invalid_bucket_names() {
    // Too short
    assert!(BucketName::new("ab".to_string()).is_err());

    // Too long
    assert!(BucketName::new("a".repeat(64)).is_err());

    // Invalid start/end
    assert!(BucketName::new("-bucket".to_string()).is_err());
    assert!(BucketName::new("bucket-".to_string()).is_err());
    assert!(BucketName::new("Bucket".to_string()).is_err());

    // Invalid characters
    assert!(BucketName::new("my_bucket".to_string()).is_err());
    assert!(BucketName::new("my.bucket".to_string()).is_err());
    assert!(BucketName::new("my bucket".to_string()).is_err());

    // Consecutive hyphens
    assert!(BucketName::new("my--bucket".to_string()).is_err());

    // IP address format
    assert!(BucketName::new("192.168.1.1".to_string()).is_err());
}

#[test]
fn test_valid_object_key() {
    assert!(ObjectKey::new("file.txt".to_string()).is_ok());
    assert!(ObjectKey::new("folder/file.txt".to_string()).is_ok());
    assert!(ObjectKey::new("deep/folder/structure/file.txt".to_string()).is_ok());
}

#[test]
fn test_invalid_object_key() {
    assert!(ObjectKey::new("".to_string()).is_err());
    assert!(ObjectKey::new("/leading-slash".to_string()).is_err());
    assert!(ObjectKey::new("double//slash".to_string()).is_err());
    assert!(ObjectKey::new("null\0byte".to_string()).is_err());
    assert!(ObjectKey::new("x".repeat(1025)).is_err());
}

#[test]
fn test_object_key_parts() {
    let key = ObjectKey::new("folder/subfolder/file.txt".to_string()).unwrap();
    assert_eq!(key.parent(), Some("folder/subfolder".to_string()));
    assert_eq!(key.file_name(), "file.txt");

    let root_key = ObjectKey::new("file.txt".to_string()).unwrap();
    assert_eq!(root_key.parent(), None);
    assert_eq!(root_key.file_name(), "file.txt");
}

#[test]
fn test_valid_version_id() {
    assert!(VersionId::new("v1.0.0".to_string()).is_ok());
    assert!(VersionId::new("550e8400-e29b-41d4-a716-446655440000".to_string()).is_ok());
    assert!(VersionId::new("2023-10-01_12-34-56".to_string()).is_ok());
}

#[test]
fn test_invalid_version_id() {
    assert!(VersionId::new("".to_string()).is_err());
    assert!(VersionId::new("version with spaces".to_string()).is_err());
    assert!(VersionId::new("version/with/slashes".to_string()).is_err());
    assert!(VersionId::new("x".repeat(1025)).is_err());
}

#[test]
fn test_generate_version_id() {
    let v1 = VersionId::generate();
    let v2 = VersionId::generate();

    // Should generate different IDs
    assert_ne!(v1, v2);

    // Should be valid
    assert!(VersionId::new(v1.as_str().to_string()).is_ok());
    assert!(VersionId::new(v2.as_str().to_string()).is_ok());
}

#[test]
fn bucket_name_errors_name_the_rule_broken() {
    let e = BucketName::new("ab".to_string()).unwrap_err();
    assert_eq!(e.message(), "Bucket name too short: 2 characters (min: 3)");
    let e = BucketName::new("my--bucket".to_string()).unwrap_err();
    assert!(e.message().contains("hyphens"));
}

#[test]
fn object_key_prefix_and_join() {
    let key = ObjectKey::new("logs/2024/app.log".to_string()).unwrap();
    assert!(key.has_prefix("logs/"));
    assert!(!key.has_prefix("tmp/"));
    let joined = ObjectKey::new("logs".to_string()).unwrap().join("app.log").unwrap();
    assert_eq!(joined.as_str(), "logs/app.log");
}
