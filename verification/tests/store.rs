use object_store_server::errors::StorageError;
use object_store_server::store_error::{ObjectStoreErrorKind, StoreError};
use object_store::memory::InMemory;
use object_store_server::store::{ApacheObjectStoreAdapter, VersionedApacheObjectStoreAdapter};
use object_store_server::value_objects::{ObjectKey, VersionId};

#[test]
fn test_basic_object_operations() {
    let mut adapter = ApacheObjectStoreAdapter::new(InMemory::new());
    let key = ObjectKey::new("test/key".to_string()).unwrap();
    let data = b"test data".to_vec();

    adapter.put_object(&key, data.clone(), Some("text/plain")).unwrap();
    let retrieved = adapter.get_object(&key).unwrap();
    assert_eq!(retrieved, data);
    assert!(adapter.object_exists(&key).unwrap());
    let size = adapter.get_object_size(&key).unwrap();
    assert_eq!(size, data.len() as u64);
    adapter.delete_object(&key).unwrap();
    assert!(!adapter.object_exists(&key).unwrap());
}

#[test]
fn test_versioned_operations() {
    let mut adapter = VersionedApacheObjectStoreAdapter::new(InMemory::new());
    let key = ObjectKey::new("test/key".to_string()).unwrap();
    let version1 = VersionId::new("v1".to_string()).unwrap();
    let version2 = VersionId::new("v2".to_string()).unwrap();
    let data1 = b"test data v1".to_vec();
    let data2 = b"test data v2".to_vec();

    adapter.put_versioned_object(&key, &version1, data1.clone(), None).unwrap();
    adapter.put_versioned_object(&key, &version2, data2.clone(), None).unwrap();

    assert_eq!(adapter.get_versioned_object(&key, &version1).unwrap(), data1);
    assert_eq!(adapter.get_versioned_object(&key, &version2).unwrap(), data2);
    assert!(adapter.version_exists(&key, &version1).unwrap());
    assert!(adapter.version_exists(&key, &version2).unwrap());

    adapter.delete_version(&key, &version1).unwrap();
    assert!(!adapter.version_exists(&key, &version1).unwrap());
    assert!(adapter.version_exists(&key, &version2).unwrap());
}

#[test]
fn reading_after_writing_gives_back_the_bytes() {
    let mut adapter = ApacheObjectStoreAdapter::new(InMemory::new());
    let a = ObjectKey::new("a.txt".to_string()).unwrap();
    let b = ObjectKey::new("b.txt".to_string()).unwrap();
    adapter.put_object(&a, b"first".to_vec(), None).unwrap();
    adapter.put_object(&b, b"other".to_vec(), None).unwrap();
    adapter.put_object(&a, b"second".to_vec(), None).unwrap();
    assert_eq!(adapter.get_object(&a).unwrap(), b"second".to_vec());
    assert_eq!(adapter.get_object(&b).unwrap(), b"other".to_vec());
}

#[test]
fn a_missing_object_is_not_found() {
    let adapter = ApacheObjectStoreAdapter::new(InMemory::new());
    let key = ObjectKey::new("nothing".to_string()).unwrap();
    let err = adapter.get_object(&key).unwrap_err();
    assert_eq!(err.message(), "Object not found: nothing");
    assert_eq!(err.status_code(), 404);
    assert!(adapter.get_object_size(&key).is_err());
}

#[test]
fn listing_is_ordered_and_limited() {
    let mut adapter = ApacheObjectStoreAdapter::new(InMemory::new());
    for k in ["b/2", "a/1", "b/1", "c"] {
        adapter.put_object(&ObjectKey::new(k.to_string()).unwrap(), k.as_bytes().to_vec(), None).unwrap();
    }
    let all = adapter.list_objects(None, None).unwrap();
    let keys: Vec<&str> = all.iter().map(|o| o.key.as_str()).collect();
    assert_eq!(keys, vec!["a/1", "b/1", "b/2", "c"]);
    let under_b = adapter.list_objects(Some("b"), None).unwrap();
    assert_eq!(under_b.len(), 2);
    let limited = adapter.list_objects(None, Some(1)).unwrap();
    assert_eq!(limited.len(), 1);
    assert_eq!(limited[0].key.as_str(), "a/1");
    assert_eq!(limited[0].size, 3);
}

#[test]
fn copying_duplicates_the_bytes() {
    let mut adapter = ApacheObjectStoreAdapter::new(InMemory::new());
    let src = ObjectKey::new("source.txt".to_string()).unwrap();
    let dst = ObjectKey::new("destination.txt".to_string()).unwrap();
    adapter.put_object(&src, b"data to copy".to_vec(), Some("text/plain")).unwrap();
    adapter.copy_object(&src, &dst).unwrap();
    assert_eq!(adapter.get_object(&dst).unwrap(), b"data to copy".to_vec());
    assert_eq!(adapter.get_object(&src).unwrap(), b"data to copy".to_vec());
}

#[test]
fn store_errors_map_to_storage_errors() {
    let e = StoreError::Http { status: 404, message: "gone".to_string() };
    assert_eq!(e.message(), "HTTP error: 404 Not Found - gone");
    assert_eq!(e.status_code(), 404);
    assert!(matches!(e.to_storage_error(), StorageError::ValidationError { message } if message == "gone"));
    let e = StoreError::Http { status: 503, message: "down".to_string() };
    assert_eq!(e.status_code(), 503);
    match e.to_storage_error() {
        StorageError::InfrastructureError { message, source } => {
            assert_eq!(message, "HTTP error 503 Service Unavailable: down");
            assert_eq!(source.as_deref(), Some("503 Service Unavailable: down"));
        }
        other => panic!("unexpected: {:?}", other),
    }
    match StoreError::VersionNotFound("docs/a.txt:v1".to_string()).to_storage_error() {
        StorageError::VersionNotFound { key, version_id } => {
            assert_eq!(key.as_str(), "docs/a.txt");
            assert_eq!(version_id.as_str(), "v1");
        }
        other => panic!("unexpected: {:?}", other),
    }
    assert!(matches!(
        StoreError::VersionNotFound("no-colon".to_string()).to_storage_error(),
        StorageError::ValidationError { message } if message == "Invalid version info format: no-colon"
    ));
    let missing = StoreError::ObjectStore {
        kind: ObjectStoreErrorKind::NotFound { path: "a/b".to_string() },
        message: "not here".to_string(),
    };
    assert_eq!(missing.status_code(), 500);
    assert!(matches!(missing.to_storage_error(), StorageError::ObjectNotFound { key } if key.as_str() == "a/b"));
    assert_eq!(StoreError::InvalidLifecycleConfig("bad".to_string()).status_code(), 400);
    assert_eq!(StoreError::Other("plain".to_string()).message(), "plain");
}
