use object_store::memory::InMemory;
use object_store_server::models::{CreateObjectRequest, GetObjectRequest, ObjectMetadata};
use object_store_server::object_repository::InMemoryObjectRepository;
use object_store_server::object_service::{ObjectServiceBuilder, ObjectServiceImpl};
use object_store_server::store::ApacheObjectStoreAdapter;
use object_store_server::tags::TagMap;
use object_store_server::value_objects::ObjectKey;

fn service() -> ObjectServiceImpl {
    ObjectServiceImpl::new(
        InMemoryObjectRepository::new(),
        ApacheObjectStoreAdapter::new(InMemory::new()),
    )
}

fn create(service: &mut ObjectServiceImpl, key: &str, data: &[u8], content_type: Option<&str>) {
    service
        .create_object(CreateObjectRequest {
            key: ObjectKey::new(key.to_string()).unwrap(),
            data: data.to_vec(),
            content_type: content_type.map(|c| c.to_string()),
            custom_metadata: TagMap::new(),
        })
        .unwrap();
}

#[test]
fn basic_put_get() {
    let mut services = service();
    let key = ObjectKey::new("test.txt".to_string()).unwrap();
    let data = b"hello world".to_vec();
    services
        .create_object(CreateObjectRequest {
            key: key.clone(),
            data: data.clone(),
            content_type: Some("text/plain".to_string()),
            custom_metadata: TagMap::new(),
        })
        .unwrap();
    let result = services
        .get_object(GetObjectRequest { key: key.clone(), version_id: None })
        .unwrap();
    assert_eq!(result.data, data);
    assert_eq!(result.key, key);
    assert_eq!(result.metadata.content_length, data.len() as u64);
}

#[test]
fn basic_delete() {
    let mut services = service();
    let key = ObjectKey::new("to_delete.txt".to_string()).unwrap();
    create(&mut services, "to_delete.txt", b"delete me", None);
    assert!(services.get_object(GetObjectRequest { key: key.clone(), version_id: None }).is_ok());
    services.delete_object(&key).unwrap();
    assert!(services.get_object(GetObjectRequest { key: key.clone(), version_id: None }).is_err());
}

#[test]
fn test_list_objects() {
    let mut services = service();
    let keys = vec!["file1.txt", "file2.txt", "dir/file3.txt"];
    for key_str in &keys {
        create(&mut services, key_str, format!("content of {}", key_str).as_bytes(), None);
    }
    let objects = services.list_objects(None, None).unwrap();
    assert_eq!(objects.len(), 3);
    let object_keys: Vec<String> = objects.iter().map(|o| o.key.as_str().to_string()).collect();
    for key in keys {
        assert!(object_keys.contains(&key.to_string()));
    }
}

#[test]
fn test_object_exists() {
    let mut services = service();
    let key = ObjectKey::new("exists-test.txt".to_string()).unwrap();
    assert!(!services.object_exists(&key).unwrap());
    create(&mut services, "exists-test.txt", b"test content", None);
    assert!(services.object_exists(&key).unwrap());
    services.delete_object(&key).unwrap();
    assert!(!services.object_exists(&key).unwrap());
}

#[test]
fn test_copy_object() {
    let mut services = service();
    let source = ObjectKey::new("source.txt".to_string()).unwrap();
    let destination = ObjectKey::new("destination.txt".to_string()).unwrap();
    create(&mut services, "source.txt", b"copy me", Some("text/plain"));
    let copied = services.copy_object(&source, &destination).unwrap();
    assert_eq!(copied.key, destination);
    assert_eq!(copied.data, b"copy me".to_vec());
    let fetched = services
        .get_object(GetObjectRequest { key: destination.clone(), version_id: None })
        .unwrap();
    assert_eq!(fetched.data, b"copy me".to_vec());
    assert_eq!(fetched.metadata.content_type, Some("text/plain".to_string()));
}

#[test]
fn test_object_size() {
    let mut services = service();
    let key = ObjectKey::new("size-test.txt".to_string()).unwrap();
    let data = b"test content for size";
    create(&mut services, "size-test.txt", data, None);
    assert_eq!(services.get_object_size(&key).unwrap(), data.len() as u64);
}

#[test]
fn creating_an_existing_object_is_refused() {
    let mut services = service();
    create(&mut services, "dup.txt", b"one", None);
    let err = services
        .create_object(CreateObjectRequest {
            key: ObjectKey::new("dup.txt".to_string()).unwrap(),
            data: b"two".to_vec(),
            content_type: None,
            custom_metadata: TagMap::new(),
        })
        .unwrap_err();
    assert_eq!(err.message(), "Object already exists: dup.txt");
    assert_eq!(err.status_code(), 409);
}

#[test]
fn etag_is_the_md5_digest() {
    let services = service();
    assert_eq!(services.calculate_etag(b"hello world"), "5eb63bbbe01eeed093cb22bb8f5acdc3");
    let mut services = service();
    create(&mut services, "etag.txt", b"hello world", None);
    let fetched = services
        .get_object(GetObjectRequest { key: ObjectKey::new("etag.txt".to_string()).unwrap(), version_id: None })
        .unwrap();
    assert_eq!(fetched.metadata.etag, Some("5eb63bbbe01eeed093cb22bb8f5acdc3".to_string()));
}

#[test]
fn deleting_a_missing_object_is_not_found() {
    let mut services = service();
    let key = ObjectKey::new("missing.txt".to_string()).unwrap();
    let err = services.delete_object(&key).unwrap_err();
    assert_eq!(err.status_code(), 404);
}

#[test]
fn update_metadata_replaces_the_latest_version_metadata() {
    let mut services = service();
    create(&mut services, "meta.txt", b"abc", None);
    let key = ObjectKey::new("meta.txt".to_string()).unwrap();
    let mut tags = TagMap::new();
    tags.insert("author".to_string(), "test-user".to_string());
    let current = services.get_object(GetObjectRequest { key: key.clone(), version_id: None }).unwrap();
    let metadata = ObjectMetadata {
        content_type: Some("text/plain".to_string()),
        content_length: 3,
        etag: current.metadata.etag.clone(),
        last_modified: current.metadata.last_modified,
        custom_metadata: tags,
    };
    services.update_metadata(&key, metadata).unwrap();
    let fetched = services.get_object(GetObjectRequest { key, version_id: None }).unwrap();
    assert_eq!(fetched.metadata.content_type, Some("text/plain".to_string()));
    assert_eq!(fetched.metadata.custom_metadata.get("author"), Some(&"test-user".to_string()));
}

#[test]
fn builder_needs_both_parts() {
    assert_eq!(ObjectServiceBuilder::new().build().err(), Some("Repository is required"));
    assert_eq!(
        ObjectServiceBuilder::new().repository(InMemoryObjectRepository::new()).build().err(),
        Some("Store is required")
    );
    assert!(ObjectServiceBuilder::new()
        .repository(InMemoryObjectRepository::new())
        .store(ApacheObjectStoreAdapter::new(InMemory::new()))
        .build()
        .is_ok());
}
