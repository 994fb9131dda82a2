use object_store::memory::InMemory;
use object_store_server::models::{CreateObjectRequest, DeleteVersionRequest, GetObjectRequest, ObjectMetadata};
use object_store_server::object_repository::InMemoryObjectRepository;
use object_store_server::object_service::ObjectServiceImpl;
use object_store_server::store::VersionedApacheObjectStoreAdapter;
use object_store_server::tags::TagMap;
use object_store_server::time::UtcTime;
use object_store_server::value_objects::{BucketName, ObjectKey, VersionId};
use object_store_server::versioning_handlers::{
    copy_versioned_object, delete_versioned_object, get_latest_object, get_versioned_object, head_versioned_object,
    list_object_versions, put_versioned_object, restore_version, ListVersionsQuery,
};
use object_store_server::versioning_service::VersioningServiceImpl;

fn service() -> VersioningServiceImpl {
    VersioningServiceImpl::new(InMemoryObjectRepository::new(), VersionedApacheObjectStoreAdapter::new(InMemory::new()))
}

fn create(s: &mut VersioningServiceImpl, key: &str, data: &[u8]) -> VersionId {
    s.create_versioned_object(CreateObjectRequest {
        key: ObjectKey::new(key.to_string()).unwrap(),
        data: data.to_vec(),
        content_type: Some("text/plain".to_string()),
        custom_metadata: TagMap::new(),
    })
    .unwrap()
    .version_id
}

#[test]
fn test_versioned_store_basic() {
    let mut s = service();
    let key = ObjectKey::new("test.txt".to_string()).unwrap();
    let v1 = create(&mut s, "test.txt", b"test content");
    assert_eq!(s.list_versions(&key).unwrap().versions.len(), 1, "Should have 1 version");
    let v2 = create(&mut s, "test.txt", b"updated content");
    let list = s.list_versions(&key).unwrap();
    assert_eq!(list.versions.len(), 2, "Should have 2 versions");
    assert!(list.versions.iter().any(|v| v.version_id == v1 && !v.is_latest), "Should find non-latest version");
    let latest = s.get_object(GetObjectRequest { key: key.clone(), version_id: None }).unwrap();
    assert_eq!(latest.version_id, v2);
    assert_eq!(latest.data, b"updated content".to_vec());
    assert!(latest.is_latest);
    let old = s.get_object(GetObjectRequest { key: key.clone(), version_id: Some(v1.clone()) }).unwrap();
    assert_eq!(old.data, b"test content".to_vec());
    assert!(!old.is_latest);
}

#[test]
fn test_delete_version() {
    let mut s = service();
    let key = ObjectKey::new("delete-test.txt".to_string()).unwrap();
    let v1 = create(&mut s, "delete-test.txt", b"will be deleted");
    let result = s.delete_version(DeleteVersionRequest { key: key.clone(), version_id: v1.clone() }).unwrap();
    assert!(result.delete_marker_created);
    assert!(s.get_object(GetObjectRequest { key: key.clone(), version_id: Some(v1.clone()) }).is_err());
    assert!(!s.version_exists(&key, &v1).unwrap());
}

#[test]
fn versioning_settings_by_bucket() {
    let mut s = service();
    let b = BucketName::new("versioned-bucket".to_string()).unwrap();
    let c = s.get_versioning_configuration(&b).unwrap();
    assert!(c.enabled && c.max_versions.is_none());
    s.disable_versioning(&b).unwrap();
    assert!(s.get_versioning_configuration(&b).unwrap().enabled);
    s.enable_versioning(&b).unwrap();
    s.disable_versioning(&b).unwrap();
    assert!(!s.get_versioning_configuration(&b).unwrap().enabled);
}

#[test]
fn comparing_versions() {
    let mut s = service();
    let key = ObjectKey::new("doc.txt".to_string()).unwrap();
    let v1 = create(&mut s, "doc.txt", b"version 1");
    let v2 = create(&mut s, "doc.txt", b"version 2 longer");
    let c = s.compare_versions(&key, &v1, &v2).unwrap();
    assert_eq!(c.size_difference, 7);
    assert!(!c.content_identical);
    assert_eq!(c.metadata_changes.len(), 1);
    assert_eq!(c.metadata_changes[0].field, "etag");
    let same = s.compare_versions(&key, &v1, &v1).unwrap();
    assert!(same.content_identical && same.metadata_changes.is_empty());
    let missing = VersionId::new("nope".to_string()).unwrap();
    assert_eq!(s.compare_versions(&key, &v1, &missing).unwrap_err().status_code(), 404);
}

#[test]
fn repository_tracks_the_latest_version() {
    let mut repo = InMemoryObjectRepository::new();
    let key = ObjectKey::new("k".to_string()).unwrap();
    let meta = |secs: i64| ObjectMetadata {
        content_type: None,
        content_length: 1,
        etag: None,
        last_modified: UtcTime::from_unix(secs, 0).unwrap(),
        custom_metadata: TagMap::new(),
    };
    let a = VersionId::new("a".to_string()).unwrap();
    let b = VersionId::new("b".to_string()).unwrap();
    let c = VersionId::new("c".to_string()).unwrap();
    repo.save_object_metadata(&key, &a, &meta(10)).unwrap();
    repo.save_object_metadata(&key, &b, &meta(30)).unwrap();
    repo.save_object_metadata(&key, &c, &meta(20)).unwrap();
    assert_eq!(repo.get_latest_version_id(&key).unwrap(), Some(c.clone()));
    repo.delete_version_metadata(&key, &c).unwrap();
    assert_eq!(repo.get_latest_version_id(&key).unwrap(), Some(b.clone()));
    repo.mark_version_deleted(&key, &b).unwrap();
    assert!(repo.get_object_metadata(&key, None).unwrap().is_none());
    assert!(repo.object_exists(&key).unwrap());
    repo.mark_version_deleted(&key, &a).unwrap();
    assert!(!repo.object_exists(&key).unwrap());
    assert!(repo.delete_version_metadata(&key, &c).is_err());
    let info = repo.get_version_info(&key, &b).unwrap().unwrap();
    assert!(info.is_latest && info.deleted);
}

#[test]
fn test_restore_version() {
    let mut s = service();
    let key = ObjectKey::new("restore-test.txt".to_string()).unwrap();
    let v1 = create(&mut s, "restore-test.txt", b"version 1");
    create(&mut s, "restore-test.txt", b"version 2");
    let versions = s.list_versions(&key).unwrap();
    assert_eq!(versions.versions.len(), 2);
    assert!(versions.versions.iter().any(|v| v.version_id == v1 && !v.is_latest), "Should find non-latest version");
    let restored = s.restore_version(&key, &v1).unwrap();
    assert!(restored.is_latest);
    assert_ne!(restored.version_id, v1);
    let latest = s.get_object(GetObjectRequest { key: key.clone(), version_id: None }).unwrap();
    assert_eq!(latest.data, b"version 1".to_vec());
    assert_eq!(latest.metadata.content_type.as_deref(), Some("text/plain"));
    assert_eq!(s.list_versions(&key).unwrap().versions.len(), 3);
    let missing = VersionId::new("no-such-version".to_string()).unwrap();
    assert!(s.restore_version(&key, &missing).is_err());
}

#[test]
fn pruning_keeps_the_newest_versions() {
    let mut s = service();
    let key = ObjectKey::new("prune.txt".to_string()).unwrap();
    let v1 = create(&mut s, "prune.txt", b"one");
    let v2 = create(&mut s, "prune.txt", b"two");
    let v3 = create(&mut s, "prune.txt", b"three");
    assert!(s.prune_versions(&key, 3).unwrap().is_empty());
    let pruned = s.prune_versions(&key, 1).unwrap();
    assert_eq!(pruned.len(), 2);
    assert!(pruned.contains(&v1) && pruned.contains(&v2));
    assert!(!s.version_exists(&key, &v1).unwrap());
    assert!(!s.version_exists(&key, &v2).unwrap());
    assert!(s.version_exists(&key, &v3).unwrap());
    let latest = s.get_object(GetObjectRequest { key: key.clone(), version_id: None }).unwrap();
    assert_eq!(latest.data, b"three".to_vec());
}

#[test]
fn versions_over_http() {
    let mut s = service();
    let created = put_versioned_object(&mut s, "docs/a.txt".to_string(), Some("text/plain".to_string()), b"first".to_vec())
        .unwrap();
    assert_eq!(created.message, "Versioned object created successfully");
    assert_eq!(created.key, "docs/a.txt");
    let v1 = created.version_id.clone();
    let second = put_versioned_object(&mut s, "docs/a.txt".to_string(), None, b"second".to_vec()).unwrap();
    let latest = get_latest_object(&s, "docs/a.txt".to_string()).unwrap();
    assert_eq!(latest.data, b"second".to_vec());
    assert_eq!(latest.content_type, "application/octet-stream");
    assert_eq!(latest.version_id, second.version_id);
    let old = get_versioned_object(&s, "docs/a.txt".to_string(), v1.clone()).unwrap();
    assert_eq!(old.data, b"first".to_vec());
    assert_eq!(old.content_type, "text/plain");
    let (code, body) = get_versioned_object(&s, "".to_string(), v1.clone()).unwrap_err();
    assert_eq!(code, 400);
    assert_eq!(body.message, "Invalid object key: Object key cannot be empty");
    let (code, _) = get_versioned_object(&s, "docs/a.txt".to_string(), "".to_string()).unwrap_err();
    assert_eq!(code, 400);
    let all = list_object_versions(&s, "docs/a.txt".to_string(), &ListVersionsQuery { max_keys: None, key_marker: None, version_id_marker: None })
        .unwrap();
    assert_eq!(all.versions.len(), 2);
    assert!(!all.is_truncated);
    assert!(all.delete_markers.is_empty());
    let one = list_object_versions(&s, "docs/a.txt".to_string(), &ListVersionsQuery { max_keys: Some(1), key_marker: None, version_id_marker: None })
        .unwrap();
    assert_eq!(one.versions.len(), 1);
    assert!(one.is_truncated);
    let head = head_versioned_object(&s, "docs/a.txt".to_string(), v1.clone()).unwrap();
    assert_eq!(head.version_id, v1);
    assert_eq!(head.content_type, "application/octet-stream");
    let copied = copy_versioned_object(&mut s, "docs/a.txt".to_string(), v1.clone(), "docs/b.txt".to_string()).unwrap();
    assert_eq!(copied.message, "Version copied successfully");
    assert_eq!(copied.destination_key, "docs/b.txt");
    let restored = restore_version(&mut s, "docs/a.txt".to_string(), v1.clone()).unwrap();
    assert_eq!(restored.restored_version_id, v1);
    assert_ne!(restored.new_version_id, v1);
    let (code, deleted) = delete_versioned_object(&mut s, "docs/a.txt".to_string(), v1.clone()).unwrap();
    assert_eq!(code, 200);
    assert_eq!(deleted.message, "Version deleted successfully");
    let (code, body) = head_versioned_object(&s, "docs/a.txt".to_string(), v1.clone()).unwrap_err();
    assert_eq!(code, 404);
    assert_eq!(body.message, "Version not found");
    let (code, _) = get_versioned_object(&s, "docs/a.txt".to_string(), v1).unwrap_err();
    assert_eq!(code, 404);
}

#[test]
fn keys_are_listed_by_prefix_in_order() {
    let mut repo = InMemoryObjectRepository::new();
    let meta = ObjectMetadata {
        content_type: None,
        content_length: 1,
        etag: None,
        last_modified: UtcTime::from_unix(0, 0).unwrap(),
        custom_metadata: TagMap::new(),
    };
    let v = VersionId::new("v1".to_string()).unwrap();
    for name in ["logs/c.txt", "logs/a.txt", "data/x.bin", "logs/b.txt"] {
        let key = ObjectKey::new(name.to_string()).unwrap();
        repo.save_object_metadata(&key, &v, &meta).unwrap();
    }
    let names = |keys: Vec<ObjectKey>| keys.iter().map(|k| k.as_str().to_string()).collect::<Vec<_>>();
    assert_eq!(names(repo.list_objects_by_prefix("logs/", None).unwrap()), vec!["logs/a.txt", "logs/b.txt", "logs/c.txt"]);
    assert_eq!(names(repo.list_objects_by_prefix("logs/", Some(2)).unwrap()), vec!["logs/a.txt", "logs/b.txt"]);
    assert_eq!(names(repo.list_objects_by_prefix("", None).unwrap()).len(), 4);
    assert!(repo.list_objects_by_prefix("none/", None).unwrap().is_empty());
}

#[test]
fn test_versioning_with_delete_markers() {
    let mut versioning = service();
    let key = ObjectKey::new("delete-marker-test.txt".to_string()).unwrap();
    let v1 = versioning
        .create_versioned_object(CreateObjectRequest {
            key: key.clone(),
            data: b"original content".to_vec(),
            content_type: None,
            custom_metadata: TagMap::new(),
        })
        .unwrap();

    // The object service works on the same repository and store.
    let (repository, store) = versioning.replace_parts(
        InMemoryObjectRepository::new(),
        VersionedApacheObjectStoreAdapter::new(InMemory::new()),
    );
    let mut objects = ObjectServiceImpl::new(repository, store.into_base());
    objects.delete_object(&key).unwrap();
    let (repository, store) = objects.into_parts();
    let _ = versioning.replace_parts(repository, VersionedApacheObjectStoreAdapter::from_base(store));

    let versions = versioning.list_versions(&key).unwrap();
    assert!(versions.versions.len() >= 1);
    let result = versioning.get_object(GetObjectRequest { key: key.clone(), version_id: None });
    assert!(result.is_err());
    let retrieved = versioning.get_object(GetObjectRequest { key: key.clone(), version_id: Some(v1.version_id) }).unwrap();
    assert_eq!(retrieved.data, b"original content".to_vec());
}
