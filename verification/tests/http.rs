use object_store_server::object_handlers::{copy_object, create_object, delete_object, get_object, head_object};
use object_store_server::object_repository::InMemoryObjectRepository;
use object_store_server::object_service::ObjectServiceImpl;
use object_store::memory::InMemory;
use object_store_server::dto::{
    ErrorResponseDto, EvaluateLifecycleDto, FilterDto, LifecycleConfigurationDto, LifecycleRuleDto,
    SuccessResponseDto,
};
use object_store_server::errors::{LifecycleError, StorageError};
use object_store_server::filter::Filter;
use object_store_server::lifecycle_handlers::{
    add_lifecycle_rule, delete_lifecycle_configuration, disable_lifecycle_rule, enable_lifecycle_rule,
    evaluate_object_lifecycle, get_lifecycle_configuration, remove_lifecycle_rule,
    set_lifecycle_configuration,
};
use object_store_server::lifecycle_repository::InMemoryLifecycleRepository;
use object_store_server::lifecycle_service::LifecycleServiceImpl;
use object_store_server::routing::{extract_metadata_from_headers, route_request, HttpMethod, Route};
use object_store_server::store::{ApacheObjectStoreAdapter, VersionedApacheObjectStoreAdapter};
use object_store_server::time::UtcTime;
use object_store_server::value_objects::ObjectKey;

fn service() -> LifecycleServiceImpl {
    LifecycleServiceImpl::new(
        InMemoryLifecycleRepository::new(),
        ApacheObjectStoreAdapter::new(InMemory::new()),
        VersionedApacheObjectStoreAdapter::new(InMemory::new()),
    )
}

fn rule_dto(id: &str, prefix: &str, days: u32) -> LifecycleRuleDto {
    LifecycleRuleDto {
        id: id.to_string(),
        status: "Enabled".to_string(),
        filter: FilterDto { prefix: Some(prefix.to_string()), tags: None, object_size_greater_than: None, object_size_less_than: None },
        expiration_days: Some(days),
        expiration_date: None,
        transition_days: None,
        transition_storage_class: None,
        del_marker_expiration_days: None,
        noncurrent_version_expiration_noncurrent_days: None,
        noncurrent_version_transition_noncurrent_days: None,
        noncurrent_version_transition_storage_class: None,
        abort_incomplete_multipart_upload_days_after_initiation: None,
    }
}

#[test]
fn lifecycle_configuration_over_http() {
    let mut s = service();
    let dto = LifecycleConfigurationDto { bucket: "lifecycle-bucket".to_string(), rules: vec![rule_dto("expire-temp", "temp/", 1)] };
    let (code, body) = set_lifecycle_configuration(&mut s, "lifecycle-bucket".to_string(), dto).unwrap();
    assert_eq!(code, 200);
    assert_eq!(body.message, "Lifecycle configuration set successfully");
    let got = get_lifecycle_configuration(&s, "lifecycle-bucket".to_string()).unwrap();
    assert_eq!(got.bucket, "lifecycle-bucket");
    assert_eq!(got.rules.len(), 1);
    assert_eq!(got.rules[0].status, "Enabled");
    assert_eq!(got.rules[0].filter.prefix, Some("temp/".to_string()));
    let (code, _) = disable_lifecycle_rule(&mut s, "lifecycle-bucket".to_string(), "expire-temp".to_string()).unwrap();
    assert_eq!(code, 200);
    assert_eq!(get_lifecycle_configuration(&s, "lifecycle-bucket".to_string()).unwrap().rules[0].status, "Disabled");
    enable_lifecycle_rule(&mut s, "lifecycle-bucket".to_string(), "expire-temp".to_string()).unwrap();
    let (code, body) = add_lifecycle_rule(&mut s, "lifecycle-bucket".to_string(), rule_dto("second", "x/", 5)).unwrap();
    assert_eq!(code, 201);
    assert_eq!(body.message, "Lifecycle rule added successfully");
    remove_lifecycle_rule(&mut s, "lifecycle-bucket".to_string(), "second".to_string()).unwrap();
    let (code, _) = delete_lifecycle_configuration(&mut s, "lifecycle-bucket".to_string()).unwrap();
    assert_eq!(code, 200);
    let (code, body) = get_lifecycle_configuration(&s, "lifecycle-bucket".to_string()).unwrap_err();
    assert_eq!(code, 404);
    assert_eq!(body.message, "Lifecycle configuration not found");
}

#[test]
fn bad_requests_are_reported() {
    let mut s = service();
    let (code, body) = get_lifecycle_configuration(&s, "Bad_Bucket".to_string()).unwrap_err();
    assert_eq!(code, 400);
    assert_eq!(body.error, "BadRequest");
    assert!(body.message.starts_with("Invalid bucket name: "));
    let mut dto = rule_dto("r", "p/", 1);
    dto.status = "Sometimes".to_string();
    let (code, body) = add_lifecycle_rule(&mut s, "good-bucket".to_string(), dto).unwrap_err();
    assert_eq!(code, 400);
    assert!(body.message.starts_with("Invalid rule: "));
    let (code, body) = enable_lifecycle_rule(&mut s, "good-bucket".to_string(), "r".to_string()).unwrap_err();
    assert_eq!(code, 404);
    assert_eq!(body.error, "LifecycleError");
}

#[test]
fn evaluation_over_http() {
    let mut s = service();
    let dto = LifecycleConfigurationDto { bucket: "eval-bucket".to_string(), rules: vec![rule_dto("delete-old-logs", "eval-bucket/logs/", 30)] };
    set_lifecycle_configuration(&mut s, "eval-bucket".to_string(), dto).unwrap();
    let request = EvaluateLifecycleDto {
        key: "eval-bucket/logs/app.log".to_string(),
        object_created_at: Some(UtcTime::from_unix(0, 0).unwrap()),
        object_tags: None,
        is_delete_marker: None,
        is_current_version: None,
    };
    let response = evaluate_object_lifecycle(&s, request).unwrap();
    assert_eq!(response.actions_to_apply.len(), 1);
    let action = &response.actions_to_apply[0];
    assert_eq!(action.rule_id, "delete-old-logs");
    assert_eq!(action.action_type, "Expiration { days: Some(30), date: None }");
    assert_eq!(action.details.len(), 1);
    assert_eq!(action.details[0].0, "days");
    let bad = EvaluateLifecycleDto { key: "/bad".to_string(), object_created_at: None, object_tags: None, is_delete_marker: None, is_current_version: None };
    let (code, body) = evaluate_object_lifecycle(&s, bad).unwrap_err();
    assert_eq!(code, 400);
    assert!(body.message.starts_with("Invalid object key: "));
}

#[test]
fn error_responses_carry_details() {
    let key = ObjectKey::new("a.txt".to_string()).unwrap();
    let e = ErrorResponseDto::from_storage_error(&StorageError::ObjectNotFound { key });
    assert_eq!(e.error, "StorageError");
    assert_eq!(e.message, "Object not found: a.txt");
    assert_eq!(e.details.unwrap().len(), 1);
    let e = ErrorResponseDto::from_lifecycle_error(&LifecycleError::RuleNotFound { rule_id: "r".to_string() });
    assert_eq!(e.message, "Lifecycle rule not found: r");
    assert!(ErrorResponseDto::bad_request("nope").details.is_none());
    assert_eq!(ErrorResponseDto::internal_error("boom").error, "InternalServerError");
    assert_eq!(SuccessResponseDto::new("done").message, "done");
    let f = FilterDto::from_filter(&Filter::new());
    assert!(f.prefix.is_none() && f.tags.is_none());
}

#[test]
fn storage_requests_are_routed() {
    assert_eq!(
        route_request(HttpMethod::Get, "/storage/photos/versions/cat.jpg"),
        Route::ListVersions { bucket: "photos".to_string(), key: "cat.jpg".to_string() }
    );
    assert_eq!(
        route_request(HttpMethod::Put, "/storage/photos/cat.jpg"),
        Route::PutObject { bucket: "photos".to_string(), key: "cat.jpg".to_string() }
    );
    assert_eq!(route_request(HttpMethod::Get, "/other/path"), Route::PassThrough);
    let headers = vec![
        ("x-amz-meta-author".to_string(), Some("me".to_string())),
        ("content-type".to_string(), Some("text/plain".to_string())),
    ];
    assert!(extract_metadata_from_headers(&headers, Some("text/plain"), None).is_some());
}

#[test]
fn objects_over_http() {
    let mut s = ObjectServiceImpl::new(InMemoryObjectRepository::new(), ApacheObjectStoreAdapter::new(InMemory::new()));
    let (code, body) = create_object(&mut s, "a.txt".to_string(), Some("text/plain".to_string()), b"hi".to_vec()).unwrap();
    assert_eq!(code, 201);
    assert_eq!(body.message, "Object created successfully");
    let (code, _) = create_object(&mut s, "a.txt".to_string(), None, b"again".to_vec()).unwrap_err();
    assert_eq!(code, 409);
    let (code, err) = create_object(&mut s, "/bad".to_string(), None, Vec::new()).unwrap_err();
    assert_eq!(code, 400);
    assert_eq!(err.message, "Invalid object key: Object key cannot start with '/'");
    let got = get_object(&s, "a.txt".to_string()).unwrap();
    assert_eq!(got.data, b"hi".to_vec());
    assert_eq!(got.content_type, "text/plain");
    assert_eq!(head_object(&s, "a.txt".to_string()).unwrap().1, 2);
    copy_object(&mut s, "a.txt".to_string(), "b.txt".to_string()).unwrap();
    assert_eq!(get_object(&s, "b.txt".to_string()).unwrap().data, b"hi".to_vec());
    let (code, deleted) = delete_object(&mut s, "a.txt".to_string()).unwrap();
    assert_eq!(code, 200);
    assert_eq!(deleted.message, "Object deleted successfully");
    let (code, _) = delete_object(&mut s, "a.txt".to_string()).unwrap_err();
    assert_eq!(code, 404);
}
