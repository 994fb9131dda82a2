use object_store_server::bucket::{
    check_status, exists_from_outcome, request_method, validate_bucket_name, BucketError,
    BucketOptions, RequestMethod, S3BucketOperations, S3Client,
};

fn client(secure: bool) -> S3Client {
    S3Client::new("localhost:9000".to_string(), None, "k".to_string(), "s".to_string(), secure, None)
}

#[test]
fn bucket_names_follow_the_s3_rules() {
    assert!(validate_bucket_name("my.bucket-1").is_ok());
    let msg = |n: &str| validate_bucket_name(n).unwrap_err().message();
    assert_eq!(msg("ab"), "Invalid bucket name: Bucket name must be between 3 and 63 characters");
    assert_eq!(msg(&"a".repeat(64)), "Invalid bucket name: Bucket name must be between 3 and 63 characters");
    assert_eq!(msg("-abc"), "Invalid bucket name: Bucket name must start with a lowercase letter or number");
    assert_eq!(msg("abc-"), "Invalid bucket name: Bucket name must end with a lowercase letter or number");
    assert_eq!(
        msg("ab_c"),
        "Invalid bucket name: Bucket name can only contain lowercase letters, numbers, hyphens, and dots"
    );
}

#[test]
fn urls_depend_on_the_scheme() {
    assert_eq!(client(false).get_base_url(), "http://localhost:9000");
    assert_eq!(client(true).get_base_url(), "https://localhost:9000");
    assert_eq!(client(false).bucket_url("photos", "?lifecycle"), "http://localhost:9000/photos?lifecycle");
    assert_eq!(client(false).get_region(), "us-east-1");
}

#[test]
fn methods_and_statuses() {
    assert!(matches!(request_method("GET"), Ok(RequestMethod::Get)));
    match request_method("HEAD") {
        Err(BucketError::ServiceError { status_code, message }) => {
            assert_eq!(status_code, 405);
            assert_eq!(message, "Method not allowed");
        }
        _ => panic!("HEAD is refused"),
    }
    assert!(check_status(204).is_ok());
    assert_eq!(check_status(500).unwrap_err().message(), "Service error: 500 - Service error occurred");
    assert!(matches!(exists_from_outcome(check_status(404)), Ok(false)));
    assert!(matches!(exists_from_outcome(check_status(200)), Ok(true)));
    assert!(exists_from_outcome(check_status(403)).is_err());
}

#[test]
fn create_bucket_request_checks_the_region() {
    let c = client(false);
    let req = c.create_bucket_request("photos", None).unwrap();
    assert_eq!(req.url, "http://localhost:9000/photos");
    assert_eq!(req.body, "");
    assert_eq!(req.headers, vec![("Host".to_string(), "localhost:9000".to_string())]);
    let mut options = BucketOptions::default();
    options.region = Some("eu-west-1".to_string());
    match c.create_bucket_request("photos", Some(options)) {
        Err(e) => assert_eq!(e.message(), "Region mismatch: expected us-east-1, got eu-west-1"),
        Ok(_) => panic!("region mismatch expected"),
    }
    let eu = S3Client::new("h".to_string(), Some("eu-west-1".to_string()), "k".to_string(), "s".to_string(), true, None);
    let mut options = BucketOptions::default();
    options.object_lock_enabled = true;
    options.versioning_enabled = true;
    options.extra_query_params = Some(vec![("a".to_string(), "1".to_string()), ("b".to_string(), "2".to_string())]);
    let req = eu.create_bucket_request("logs", Some(options)).unwrap();
    assert_eq!(req.url, "https://h/logs?a=1&b=2");
    assert_eq!(
        req.body,
        "<CreateBucketConfiguration><LocationConstraint>eu-west-1</LocationConstraint></CreateBucketConfiguration>"
    );
    assert_eq!(req.headers.len(), 2);
    assert!(req.enable_versioning);
    assert!(c.create_bucket_request("Bad_Name", None).is_err());
}

#[test]
fn bucket_operations_are_requests() {
    let client = S3Client::new("localhost:9000".to_string(), None, "key".to_string(), "secret".to_string(), false, None);
    let ops = S3BucketOperations::new(client);
    let r = ops.bucket_exists_request("my-bucket").unwrap();
    assert_eq!((r.method.as_str(), r.url.as_str(), r.body.as_str()), ("HEAD", "http://localhost:9000/my-bucket", ""));
    assert!(request_method(&r.method).is_err());
    let r = ops.delete_bucket_request("my-bucket").unwrap();
    assert_eq!(r.method, "DELETE");
    assert!(matches!(ops.delete_bucket_request("UPPER"), Err(BucketError::InvalidBucketName(_))));
    let r = ops.list_buckets_request();
    assert_eq!((r.method.as_str(), r.url.as_str()), ("GET", "http://localhost:9000"));
    let r = ops.set_bucket_lifecycle_request("my-bucket", "{}").unwrap();
    assert_eq!((r.url.as_str(), r.body.as_str()), ("http://localhost:9000/my-bucket?lifecycle", "{}"));
    let r = ops.get_bucket_lifecycle_request("my-bucket").unwrap();
    assert_eq!(r.method, "GET");
    let r = ops.enable_bucket_versioning_request("my-bucket");
    assert_eq!(r.url, "http://localhost:9000/my-bucket?versioning");
    assert_eq!(r.body, "<VersioningConfiguration><Status>Enabled</Status></VersioningConfiguration>");
}
