use object_store::memory::InMemory;
use object_store_server::filter::Filter;
use object_store_server::lifecycle::{
    ApplicableAction, EvaluateLifecycleRequest, LifecycleAction, LifecycleConfiguration, LifecycleRule, RuleStatus, StorageClass,
};
use object_store_server::lifecycle_repository::InMemoryLifecycleRepository;
use object_store_server::lifecycle_service::LifecycleServiceImpl;
use object_store_server::store::{ApacheObjectStoreAdapter, VersionedApacheObjectStoreAdapter};
use object_store_server::tags::TagMap;
use object_store_server::time::{now, UtcTime};
use object_store_server::value_objects::{BucketName, ObjectKey};

fn create_test_service() -> LifecycleServiceImpl {
    LifecycleServiceImpl::new(
        InMemoryLifecycleRepository::new(),
        ApacheObjectStoreAdapter::new(InMemory::new()),
        VersionedApacheObjectStoreAdapter::new(InMemory::new()),
    )
}

fn prefix_filter(prefix: &str) -> Filter {
    let mut f = Filter::new();
    f.with_prefix(prefix.to_string())
}

fn rule(id: &str, prefix: &str, expiration_days: Option<u32>) -> LifecycleRule {
    let mut r = LifecycleRule::new(id.to_string());
    r.status = RuleStatus::Enabled;
    r.filter = prefix_filter(prefix);
    r.expiration_days = expiration_days;
    r
}

fn config(bucket: &BucketName, rules: Vec<LifecycleRule>) -> LifecycleConfiguration {
    LifecycleConfiguration { bucket: bucket.clone(), rules }
}

#[test]
fn test_save_and_get_configuration() {
    let mut repo = InMemoryLifecycleRepository::new();
    let bucket = BucketName::new("test-bucket".to_string()).unwrap();
    let c = config(&bucket, vec![rule("rule1", "logs/", Some(30))]);
    repo.save_configuration(&bucket, &c).unwrap();
    let retrieved = repo.get_configuration(&bucket).unwrap();
    assert!(retrieved.is_some());
    assert_eq!(retrieved.unwrap().rules.len(), 1);
}

#[test]
fn test_update_rule() {
    let mut repo = InMemoryLifecycleRepository::new();
    let bucket = BucketName::new("test-bucket".to_string()).unwrap();
    let mut c = config(&bucket, vec![rule("rule1", "logs/", Some(30))]);
    repo.save_configuration(&bucket, &c).unwrap();
    c.rules[0].status = RuleStatus::Disabled;
    repo.update_rule(&bucket, &c.rules[0]).unwrap();
    let updated_rule = repo.get_rule(&bucket, "rule1").unwrap().unwrap();
    assert_eq!(updated_rule.status, RuleStatus::Disabled);
}

#[test]
fn test_set_and_get_lifecycle_configuration() {
    let mut service = create_test_service();
    let bucket = BucketName::new("test-bucket".to_string()).unwrap();
    let c = config(&bucket, vec![rule("test-rule", "logs/", Some(30))]);
    service.set_lifecycle_configuration(&bucket, c).unwrap();
    let retrieved = service.get_lifecycle_configuration(&bucket).unwrap();
    assert!(retrieved.is_some());
    assert_eq!(retrieved.unwrap().rules.len(), 1);
}

#[test]
fn lifecycle_service_impl_test_lifecycle_evaluation() {
    let mut service = create_test_service();
    let bucket = BucketName::new("test-bucket".to_string()).unwrap();
    let c = config(&bucket, vec![rule("expire-old-logs", "logs/", Some(1))]);
    service.set_lifecycle_configuration(&bucket, c).unwrap();

    // An object created two days ago.
    let t = now();
    let old_time = UtcTime::from_unix(t.secs() - 2 * 86400, 0).unwrap();
    let request = EvaluateLifecycleRequest {
        key: ObjectKey::new("logs/old-file.log".to_string()).unwrap(),
        object_created_at: old_time,
        object_tags: TagMap::new(),
        is_delete_marker: false,
        is_current_version: true,
    };
    let result = service.evaluate_object_lifecycle(&request).unwrap();
    assert!(!result.actions_to_apply.is_empty());
    assert_eq!(result.actions_to_apply[0].rule_id, "expire-old-logs");
}

#[test]
fn evaluation_prefers_the_bucket_named_by_the_key() {
    let mut service = create_test_service();
    let logs = BucketName::new("logs".to_string()).unwrap();
    let other = BucketName::new("other-bucket".to_string()).unwrap();
    service.set_lifecycle_configuration(&other, config(&other, vec![rule("other-rule", "logs/", Some(1))])).unwrap();
    let t = now();
    let request = EvaluateLifecycleRequest {
        key: ObjectKey::new("logs/old-file.log".to_string()).unwrap(),
        object_created_at: UtcTime::from_unix(t.secs() - 2 * 86400, 0).unwrap(),
        object_tags: TagMap::new(),
        is_delete_marker: false,
        is_current_version: true,
    };
    // No bucket of the key's own: every configured bucket's rules apply.
    let result = service.evaluate_object_lifecycle(&request).unwrap();
    assert_eq!(result.actions_to_apply.len(), 1);
    assert_eq!(result.actions_to_apply[0].rule_id, "other-rule");
    // Once the key's bucket has a configuration, only its rules apply.
    service.set_lifecycle_configuration(&logs, config(&logs, vec![rule("own-rule", "logs/", Some(1))])).unwrap();
    let result = service.evaluate_object_lifecycle(&request).unwrap();
    assert_eq!(result.actions_to_apply.len(), 1);
    assert_eq!(result.actions_to_apply[0].rule_id, "own-rule");
}

#[test]
fn integration_tests_test_lifecycle_evaluation() {
    let mut service = create_test_service();
    let bucket = BucketName::new("eval-bucket".to_string()).unwrap();
    let c = config(&bucket, vec![rule("delete-old-logs", "logs/", Some(30))]);
    service.set_lifecycle_configuration(&bucket, c).unwrap();
    let result = service.process_bucket_lifecycle(&bucket).unwrap();
    assert_eq!(result.bucket, bucket);
    assert_eq!(result.errors.len(), 0);
    let status = service.get_processing_status(&bucket).unwrap();
    assert!(!status.is_running);
    let recorded = status.last_run_results.unwrap();
    assert_eq!(recorded.bucket, bucket);
    assert_eq!(recorded.objects_processed, result.objects_processed);
    assert_eq!(recorded.errors.len(), 0);
}

#[test]
fn test_rule_management() {
    let mut service = create_test_service();
    let bucket = BucketName::new("test-bucket".to_string()).unwrap();
    service.add_rule(&bucket, rule("new-rule", "temp/", Some(7))).unwrap();
    let c = service.get_lifecycle_configuration(&bucket).unwrap();
    assert!(c.is_some());
    assert_eq!(c.unwrap().rules.len(), 1);

    service.disable_rule(&bucket, "new-rule").unwrap();
    let c = service.get_lifecycle_configuration(&bucket).unwrap();
    assert_eq!(c.unwrap().rules[0].status, RuleStatus::Disabled);

    service.remove_rule(&bucket, "new-rule").unwrap();
    let c = service.get_lifecycle_configuration(&bucket).unwrap();
    assert!(c.is_none() || c.unwrap().rules.is_empty());
}

#[test]
fn test_multiple_lifecycle_rules() {
    let mut service = create_test_service();
    let bucket = BucketName::new("multi-rule-bucket".to_string()).unwrap();
    let mut archive = rule("archive-old-logs", "logs/", None);
    archive.transition_days = Some(90);
    archive.transition_storage_class = Some(StorageClass::Glacier);
    let temp = rule("delete-temp-files", "temp/", Some(30));
    service.set_lifecycle_configuration(&bucket, config(&bucket, vec![archive, temp])).unwrap();
    let c = service.get_lifecycle_configuration(&bucket).unwrap().expect("Configuration should exist");
    assert_eq!(c.rules.len(), 2);
    let a = c.rules.iter().find(|r| r.id == "archive-old-logs").expect("Should find archive rule");
    assert_eq!(a.transition_days, Some(90));
    let t = c.rules.iter().find(|r| r.id == "delete-temp-files").expect("Should find temp rule");
    assert_eq!(t.expiration_days, Some(30));
}

#[test]
fn test_delete_lifecycle_configuration() {
    let mut service = create_test_service();
    let bucket = BucketName::new("delete-config-bucket".to_string()).unwrap();
    let c = config(&bucket, vec![rule("to-be-deleted", "deleteme/", Some(1))]);
    service.set_lifecycle_configuration(&bucket, c).unwrap();
    assert!(service.get_lifecycle_configuration(&bucket).unwrap().is_some());
    service.delete_lifecycle_configuration(&bucket).unwrap();
    assert!(service.get_lifecycle_configuration(&bucket).unwrap().is_none());
}

#[test]
fn a_rule_without_actions_is_refused() {
    let mut service = create_test_service();
    let bucket = BucketName::new("bad-bucket".to_string()).unwrap();
    let c = config(&bucket, vec![rule("no-action", "x/", None)]);
    let err = service.set_lifecycle_configuration(&bucket, c).unwrap_err();
    assert_eq!(err.status_code(), 400);
    assert!(service.get_lifecycle_configuration(&bucket).unwrap().is_none());
}

#[test]
fn adding_a_duplicate_rule_id_is_refused() {
    let mut service = create_test_service();
    let bucket = BucketName::new("dup-bucket".to_string()).unwrap();
    service.add_rule(&bucket, rule("r1", "a/", Some(1))).unwrap();
    let err = service.add_rule(&bucket, rule("r1", "b/", Some(2))).unwrap_err();
    assert_eq!(err.message(), "Validation failed: Rule with ID 'r1' already exists");
}

#[test]
fn evaluating_a_young_object_finds_nothing() {
    let mut service = create_test_service();
    let bucket = BucketName::new("young-bucket".to_string()).unwrap();
    service
        .set_lifecycle_configuration(&bucket, config(&bucket, vec![rule("expire", "young-bucket/logs/", Some(30))]))
        .unwrap();
    let request = EvaluateLifecycleRequest {
        key: ObjectKey::new("young-bucket/logs/new.log".to_string()).unwrap(),
        object_created_at: now(),
        object_tags: TagMap::new(),
        is_delete_marker: false,
        is_current_version: true,
    };
    assert!(service.evaluate_object_lifecycle(&request).unwrap().actions_to_apply.is_empty());
}

#[test]
fn an_older_object_keeps_its_actions() {
    let mut service = create_test_service();
    let bucket = BucketName::new("test-bucket".to_string()).unwrap();
    let c = config(&bucket, vec![rule("short", "logs/", Some(1)), rule("long", "logs/", Some(10))]);
    service.set_lifecycle_configuration(&bucket, c).unwrap();
    let t = now();
    let request = |age_days: i64| EvaluateLifecycleRequest {
        key: ObjectKey::new("logs/file.log".to_string()).unwrap(),
        object_created_at: UtcTime::from_unix(t.secs() - age_days * 86400, 0).unwrap(),
        object_tags: TagMap::new(),
        is_delete_marker: false,
        is_current_version: true,
    };
    let young = service.evaluate_object_lifecycle(&request(2)).unwrap();
    let old = service.evaluate_object_lifecycle(&request(20)).unwrap();
    assert_eq!(young.actions_to_apply.len(), 1);
    assert_eq!(old.actions_to_apply.len(), 2);
    assert_eq!(old.actions_to_apply[0].rule_id, young.actions_to_apply[0].rule_id);
}

#[test]
fn every_action_is_applied_or_failed() {
    let mut service = create_test_service();
    let key = ObjectKey::new("logs/file.log".to_string()).unwrap();
    let actions = vec![
        ApplicableAction {
            rule_id: "a".to_string(),
            action: LifecycleAction::Transition { days: Some(1), date: None, storage_class: StorageClass::Glacier },
            reason: "r".to_string(),
        },
        ApplicableAction {
            rule_id: "b".to_string(),
            action: LifecycleAction::Expiration { days: Some(1), date: None },
            reason: "r".to_string(),
        },
        ApplicableAction {
            rule_id: "c".to_string(),
            action: LifecycleAction::ExpireDeleteMarker { days: 1 },
            reason: "r".to_string(),
        },
    ];
    let results = service.apply_lifecycle_actions(&key, actions).unwrap();
    assert_eq!(results.applied_actions.len() + results.failed_actions.len(), 3);
    assert_eq!(results.failed_actions.len(), 1);
    assert_eq!(results.failed_actions[0].rule_id, "a");
}

#[test]
fn evaluation_refuses_a_key_without_a_valid_bucket() {
    let mut service = create_test_service();
    let bucket = BucketName::new("test-bucket".to_string()).unwrap();
    service.set_lifecycle_configuration(&bucket, config(&bucket, vec![rule("r", "", Some(1))])).unwrap();
    let request = EvaluateLifecycleRequest {
        key: ObjectKey::new("x/old.log".to_string()).unwrap(),
        object_created_at: UtcTime::from_unix(0, 0).unwrap(),
        object_tags: TagMap::new(),
        is_delete_marker: false,
        is_current_version: true,
    };
    match service.evaluate_object_lifecycle(&request) {
        Err(object_store_server::errors::LifecycleError::ValidationFailed { errors }) => {
            assert_eq!(errors.len(), 1);
            assert!(errors[0].starts_with("Invalid bucket name in key: "));
        },
        other => panic!("expected a validation failure, got {:?}", other.map(|r| r.actions_to_apply.len())),
    }
}
