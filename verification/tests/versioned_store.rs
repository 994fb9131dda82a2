use object_store::memory::InMemory;
use object_store_server::object_store_service::{ObjectStoreService, StorageReply};
use object_store_server::routing::Route;
use object_store_server::store_error::{ObjectStoreErrorKind, StoreError};
use object_store_server::store_lifecycle::{
    plan_rule_actions, ExpirationConfig, LifecycleAction, LifecycleConfiguration, LifecycleManager, LifecycleRule,
    RuleStatus, TransitionConfig,
};
use object_store_server::tags::TagMap;
use object_store_server::time::{now, UtcTime};
use object_store_server::versioned_store::VersionedStore;

fn rule(id: &str, prefix: &str, days: Option<u32>) -> LifecycleRule {
    LifecycleRule {
        id: id.to_string(),
        prefix: prefix.to_string(),
        status: RuleStatus::Enabled,
        expiration: days.map(|d| ExpirationConfig { days: Some(d), date: None, expired_object_delete_marker: None }),
        transitions: None,
        filter_tags: None,
    }
}

#[test]
fn every_put_is_kept_as_a_version() {
    let mut s = VersionedStore::new(InMemory::new());
    s.put("docs/a.txt", b"one".to_vec()).unwrap();
    s.put("docs/a.txt", b"second".to_vec()).unwrap();
    assert_eq!(s.get("docs/a.txt").unwrap(), b"second".to_vec());
    let versions = s.list_versions("docs/a.txt").unwrap();
    assert_eq!(versions.len(), 2);
    assert_eq!(versions[0].size, 3);
    assert_eq!(versions[1].size, 6);
    assert_eq!(versions[0].version_id.len(), 36);
    assert!(versions[0].etag.is_none() && versions[0].user_metadata.is_none());
    assert_eq!(s.get_version("docs/a.txt", &versions[0].version_id).unwrap(), b"one".to_vec());
    assert_eq!(s.get_version("docs/a.txt", &versions[1].version_id).unwrap(), b"second".to_vec());
    let m = s.get_version_metadata("docs/a.txt", &versions[1].version_id).unwrap().unwrap();
    assert_eq!(m.size, 6);
    assert!(s.get_version_metadata("docs/a.txt", "missing").unwrap().is_none());
    assert!(s.list_versions("docs/other.txt").unwrap().is_empty());
    assert_eq!(s.head("docs/a.txt").unwrap(), 6);
}

#[test]
fn deleting_versions_forgets_them() {
    let mut s = VersionedStore::new(InMemory::new());
    s.put("k", b"v1".to_vec()).unwrap();
    s.put("k", b"v2".to_vec()).unwrap();
    let versions = s.list_versions("k").unwrap();
    let first = versions[0].version_id.clone();
    let second = versions[1].version_id.clone();
    s.delete_version("k", &first).unwrap();
    let left = s.list_versions("k").unwrap();
    assert_eq!(left.len(), 1);
    assert_eq!(left[0].version_id, second);
    match s.get_version("k", &first) {
        Err(StoreError::ObjectStore { kind: ObjectStoreErrorKind::NotFound { path }, .. }) => {
            assert_eq!(path, format!("k.v_{}", first))
        }
        other => panic!("unexpected: {:?}", other),
    }
    s.delete_version("k", &second).unwrap();
    assert!(s.list_versions("k").unwrap().is_empty());
    assert_eq!(s.get("k").unwrap(), b"v2".to_vec());
    s.delete("k").unwrap();
    assert!(matches!(s.get("k"), Err(StoreError::ObjectStore { kind: ObjectStoreErrorKind::NotFound { .. }, .. })));
}

#[test]
fn copies_are_versions_of_the_target() {
    let mut s = VersionedStore::new(InMemory::new());
    s.put("from", b"payload".to_vec()).unwrap();
    s.copy("from", "to").unwrap();
    assert_eq!(s.get("to").unwrap(), b"payload".to_vec());
    let versions = s.list_versions("to").unwrap();
    assert_eq!(versions.len(), 1);
    assert_eq!(versions[0].size, 7);
    assert!(s.copy("nowhere", "to").is_err());
    assert_eq!(s.list_versions("to").unwrap().len(), 1);
    s.copy_if_not_exists("from", "to").unwrap();
    assert_eq!(s.list_versions("to").unwrap().len(), 2);
}

#[test]
fn without_versioning_puts_pass_through() {
    let mut s = VersionedStore::new(InMemory::new());
    s.enable_versioning(false);
    s.put("plain", b"x".to_vec()).unwrap();
    assert_eq!(s.get("plain").unwrap(), b"x".to_vec());
    assert!(s.list_versions("plain").unwrap().is_empty());
    let listed = s.list(None).unwrap();
    assert_eq!(listed.len(), 1);
    assert_eq!(listed[0].location, "plain");
}

#[test]
fn storage_routes_are_served() {
    let mut svc = ObjectStoreService::new(InMemory::new());
    let put = Route::PutObject { bucket: "b".to_string(), key: "file".to_string() };
    let mut meta = TagMap::new();
    meta.insert("etag".to_string(), "\"abc\"".to_string());
    match svc.handle(&put, b"hello".to_vec(), Some(meta), None) {
        StorageReply::Created(resp) => {
            assert_eq!(resp.version_id.len(), 36);
            assert_eq!(resp.etag.as_deref(), Some("\"abc\""));
        }
        other => panic!("unexpected: {:?}", other),
    }
    let get = Route::GetObject { bucket: "b".to_string(), key: "file".to_string() };
    assert!(matches!(svc.handle(&get, Vec::new(), None, None), StorageReply::Data(d) if d == b"hello".to_vec()));
    let missing = Route::GetObject { bucket: "b".to_string(), key: "none".to_string() };
    assert!(matches!(svc.handle(&missing, Vec::new(), None, None), StorageReply::Status(404)));
    let list = Route::ListVersions { bucket: "b".to_string(), key: "file".to_string() };
    let versions = match svc.handle(&list, Vec::new(), None, None) {
        StorageReply::Versions(v) => v,
        other => panic!("unexpected: {:?}", other),
    };
    assert_eq!(versions.key, "file");
    assert_eq!(versions.versions.len(), 1);
    assert_eq!(versions.versions[0].size, 5);
    assert!(versions.versions[0].created_at.ends_with("+00:00"));
    let id = versions.versions[0].version_id.clone();
    let get_version = Route::GetVersion { bucket: "b".to_string(), key: "file".to_string(), version: id.clone() };
    assert!(matches!(svc.handle(&get_version, Vec::new(), None, None), StorageReply::Data(d) if d == b"hello".to_vec()));
    let delete_version = Route::DeleteVersion { bucket: "b".to_string(), key: "file".to_string(), version: id };
    assert!(matches!(svc.handle(&delete_version, Vec::new(), None, None), StorageReply::Status(204)));
    assert!(matches!(svc.handle(&get_version, Vec::new(), None, None), StorageReply::Status(500)));
    let delete = Route::DeleteObject { bucket: "b".to_string(), key: "file".to_string() };
    assert!(matches!(svc.handle(&delete, Vec::new(), None, None), StorageReply::Status(204)));
    assert!(matches!(svc.handle(&get, Vec::new(), None, None), StorageReply::Status(404)));
    assert!(matches!(svc.handle(&Route::PassThrough, Vec::new(), None, None), StorageReply::PassThrough));
}

#[test]
fn lifecycle_routes_are_served() {
    let mut svc = ObjectStoreService::new(InMemory::new());
    let get = Route::GetLifecycle { bucket: "b".to_string() };
    assert!(matches!(svc.handle(&get, Vec::new(), None, None), StorageReply::Lifecycle(c) if c.rules.is_empty()));
    let put = Route::PutLifecycle { bucket: "b".to_string() };
    assert!(matches!(svc.handle(&put, Vec::new(), None, None), StorageReply::Status(400)));
    let mut bad = LifecycleConfiguration::new();
    bad.add_rule(rule("r", "logs/", None));
    assert!(matches!(svc.handle(&put, Vec::new(), None, Some(bad)), StorageReply::Status(400)));
    let mut good = LifecycleConfiguration::new();
    good.add_rule(rule("r", "logs/", Some(7)));
    assert!(matches!(svc.handle(&put, Vec::new(), None, Some(good)), StorageReply::Status(200)));
    match svc.handle(&get, Vec::new(), None, None) {
        StorageReply::Lifecycle(c) => {
            assert_eq!(c.rules.len(), 1);
            assert_eq!(c.rules[0].id, "r");
        }
        other => panic!("unexpected: {:?}", other),
    }
    assert!(svc.start_lifecycle_manager().unwrap());
    assert!(!svc.start_lifecycle_manager().unwrap());
}

#[test]
fn lifecycle_rules_plan_what_is_due() {
    let mut s = VersionedStore::new(InMemory::new());
    s.put("b/logs/a.log", b"a".to_vec()).unwrap();
    s.put("b/logs/b.log", b"bb".to_vec()).unwrap();
    s.put("b/data/keep.bin", b"c".to_vec()).unwrap();
    let mut config = LifecycleConfiguration::new();
    let mut expiring = rule("expire-logs", "logs", Some(0));
    expiring.transitions = Some(vec![
        TransitionConfig { days: Some(0), date: None, storage_class: "GLACIER".to_string() },
        TransitionConfig { days: Some(365), date: None, storage_class: "DEEP".to_string() },
    ]);
    config.add_rule(expiring);
    let mut disabled = rule("off", "data", Some(0));
    disabled.status = RuleStatus::Disabled;
    config.add_rule(disabled);
    let plan = LifecycleManager::apply_lifecycle_rules(&s, "b", &config, &now()).unwrap();
    // The listing holds the two logs and the stored copy of each one's version.
    assert_eq!(plan.len(), 8);
    assert_eq!(plan[0].location, "b/logs/a.log");
    assert_eq!(plan[0].rule_id, "expire-logs");
    assert!(matches!(plan[0].action, LifecycleAction::Delete));
    assert!(matches!(&plan[1].action, LifecycleAction::Transition { storage_class } if storage_class == "GLACIER"));
    assert!(plan[2].location.starts_with("b/logs/a.log.v_"));
    assert_eq!(plan[4].location, "b/logs/b.log");
    assert!(plan.iter().all(|p| !p.location.starts_with("b/data")));
    let listing = s.list(Some("b/logs")).unwrap();
    let epoch = UtcTime::from_unix(0, 0).unwrap();
    assert!(plan_rule_actions(&rule("later", "logs", Some(1)), &listing, &epoch).is_empty());
}
