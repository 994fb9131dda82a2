use vstd::prelude::*;

use object_store::memory::InMemory;

use crate::filter::opt_view;
use crate::lifecycle_adapter::{
    distinct_ids, domain_to_service, from_last_sources, ids_in_first_order, minio_ids, store_ids,
};
use crate::minio::{rule_models, MinioLifecycleConfig};
use crate::routing::{Route, RouteView};
use crate::memory_store::{memory_contents, object_path};
use crate::store::{random_uuid, uuid_text};
use crate::store_error::{ObjectStoreErrorKind, StoreError};
use crate::store_lifecycle::{
    first_problem, same_rule_lists, LifecycleConfiguration, LifecycleManager,
};
use crate::tags::TagMap;
use crate::time::{utc_rfc3339, utc_rfc3339_text};
use crate::versioned_store::{
    metadata_views, not_found_at, put_outcome, version_deleted, version_location, VersionMetadata,
    VersionMetadataView, VersionedStore,
};

verus! {

/// What a successful put answers.
#[derive(Debug)]
pub struct PutObjectResponse {
    /// The version id handed out for the put.
    pub version_id: String,
    /// The entity tag, when the request's metadata carried one.
    pub etag: Option<String>,
}

/// The versions of an object.
#[derive(Debug)]
pub struct ListVersionsResponse {
    /// The object's key.
    pub key: String,
    /// Its versions, oldest first.
    pub versions: Vec<VersionInfo>,
}

/// One version of an object.
#[derive(Debug)]
pub struct VersionInfo {
    pub version_id: String,
    /// When the version was made, in RFC 3339 form.
    pub created_at: String,
    /// The size of the object in bytes.
    pub size: usize,
    pub etag: Option<String>,
}

/// The listed version describes the recorded one: same id, size and entity tag, and its
/// creation time written in RFC 3339 form.
pub open spec fn describes(info: VersionInfo, m: VersionMetadataView) -> bool {
    &&& info.version_id@ == m.version_id
    &&& info.created_at@ == utc_rfc3339_text(
        m.created_at.spec_secs() as i64,
        m.created_at.spec_nanos() as u32,
    )
    &&& info.size == m.size
    &&& opt_view(info.etag) == m.etag
}

/// The entity tag that request metadata carries under the name `etag`.
pub open spec fn metadata_etag(metadata: Option<TagMap>) -> Option<Seq<char>> {
    match metadata {
        Some(m) => if m@.dom().contains("etag"@) {
            Some(m@["etag"@])
        } else {
            None
        },
        None => None,
    }
}

/// What the storage middleware answers to a request.
#[derive(Debug)]
pub enum StorageReply {
    /// Status 200 with the bytes as body.
    Data(Vec<u8>),
    /// Status 200 with the versions as JSON.
    Versions(ListVersionsResponse),
    /// Status 200 with the configuration as JSON.
    Lifecycle(LifecycleConfiguration),
    /// Status 201 with the put's answer as JSON.
    Created(PutObjectResponse),
    /// A bare status code.
    Status(u16),
    /// Not a request handled here: the next service answers it.
    PassThrough,
}

/// The object storage service behind the storage routes: a versioned store and the lifecycle
/// configurations of its buckets. Objects are addressed by key alone.
pub struct ObjectStoreService {
    /// The versioned object store.
    pub store: VersionedStore,
    /// The lifecycle configurations.
    pub lifecycle_manager: LifecycleManager,
}

impl ObjectStoreService {
    /// The store and the manager are well formed.
    pub open spec fn wf(self) -> bool {
        self.store.wf() && self.lifecycle_manager.wf()
    }

    /// A service over `store`, with versioning on, no versions recorded, no lifecycle
    /// configurations and the lifecycle worker stopped.
    pub fn new(store: InMemory) -> (r: Self)
        ensures
            r.wf(),
            r.store.contents() == memory_contents(store),
            r.store.version_lists() == Map::<Seq<char>, Seq<VersionMetadataView>>::empty(),
            r.store.is_versioning(),
            r.lifecycle_manager.spec_configs() == Map::<
                Seq<char>,
                LifecycleConfiguration,
            >::empty(),
            !r.lifecycle_manager.spec_running(),
    {
        ObjectStoreService { store: VersionedStore::new(store), lifecycle_manager: LifecycleManager::new() }
    }

    /// Marks the lifecycle worker as running; whether it has to be started (it was not
    /// running).
    pub fn start_lifecycle_manager(&mut self) -> (r: Result<bool, StoreError>)
        requires
            old(self).wf(),
        ensures
            final(self).wf(),
            final(self).lifecycle_manager.spec_running(),
            final(self).lifecycle_manager.spec_configs() == old(self).lifecycle_manager.spec_configs(),
            final(self).store == old(self).store,
            r == Ok::<bool, StoreError>(!old(self).lifecycle_manager.spec_running()),
    {
        self.lifecycle_manager.start()
    }

    /// The bytes of the object with this key; `ObjectNotFound` with the key when there is
    /// none.
    pub fn get_object(&self, bucket: &str, key: &str) -> (r: Result<Vec<u8>, StoreError>)
        ensures
            match r {
                Ok(d) => self.store.contents().dom().contains(object_path(key@)) && d@
                    == self.store.contents()[object_path(key@)],
                Err(e) => !self.store.contents().dom().contains(object_path(key@)) && (e matches
                    StoreError::ObjectNotFound(k) && k@ == key@),
            },
    {
        match self.store.get(key) {
            Ok(d) => Ok(d),
            Err(StoreError::ObjectStore { kind: ObjectStoreErrorKind::NotFound { .. }, .. }) => Err(
                StoreError::ObjectNotFound(String::from_str(key)),
            ),
            Err(e) => Err(e),
        }
    }

    /// The bytes of a version of the object with this key.
    pub fn get_object_version(&self, bucket: &str, key: &str, version_id: &str) -> (r: Result<
        Vec<u8>,
        StoreError,
    >)
        ensures
            match r {
                Ok(d) => self.store.contents().dom().contains(version_location(key@, version_id@))
                    && d@ == self.store.contents()[version_location(key@, version_id@)],
                Err(e) => !self.store.contents().dom().contains(
                    version_location(key@, version_id@),
                ) && not_found_at(e, version_location(key@, version_id@)),
            },
    {
        self.store.get_version(key, version_id)
    }

    /// Stores the bytes as the object with this key and answers with a freshly drawn version
    /// id and the entity tag that the metadata carries.
    pub fn put_object(&mut self, bucket: &str, key: &str, data: Vec<u8>, metadata: Option<TagMap>) -> (r:
        Result<PutObjectResponse, StoreError>)
        requires
            old(self).wf(),
            metadata matches Some(m) ==> m.wf(),
        ensures
            final(self).wf(),
            final(self).lifecycle_manager == old(self).lifecycle_manager,
            final(self).store.is_versioning() == old(self).store.is_versioning(),
            put_outcome(old(self).store, final(self).store, key@, data@),
            r matches Ok(resp) && uuid_text(resp.version_id@) && opt_view(resp.etag)
                == metadata_etag(metadata),
    {
        let version_id = random_uuid();
        match self.store.put(key, data) {
            Ok(()) => {},
            Err(e) => {
                return Err(e);
            },
        }
        let etag = match &metadata {
            Some(m) => match m.get("etag") {
                Some(v) => Some(v.clone()),
                None => None,
            },
            None => None,
        };
        Ok(PutObjectResponse { version_id, etag })
    }

    /// Removes the object with this key; its versions stay.
    pub fn delete_object(&mut self, bucket: &str, key: &str) -> (r: Result<(), StoreError>)
        requires
            old(self).wf(),
        ensures
            r is Ok,
            final(self).wf(),
            final(self).lifecycle_manager == old(self).lifecycle_manager,
            final(self).store.is_versioning() == old(self).store.is_versioning(),
            final(self).store.contents() == old(self).store.contents().remove(object_path(key@)),
            final(self).store.version_lists() == old(self).store.version_lists(),
    {
        self.store.delete(key)
    }

    /// Removes a version of the object with this key (see
    /// [`VersionedStore::delete_version`]).
    pub fn delete_object_version(&mut self, bucket: &str, key: &str, version_id: &str) -> (r: Result<
        (),
        StoreError,
    >)
        requires
            old(self).wf(),
        ensures
            r is Ok,
            final(self).wf(),
            final(self).lifecycle_manager == old(self).lifecycle_manager,
            final(self).store.is_versioning() == old(self).store.is_versioning(),
            version_deleted(old(self).store, final(self).store, key@, version_id@),
    {
        self.store.delete_version(key, version_id)
    }

    /// The versions of the object with this key, oldest first, each with its creation time in
    /// RFC 3339 form.
    pub fn list_object_versions(&self, bucket: &str, key: &str) -> (r: Result<
        ListVersionsResponse,
        StoreError,
    >)
        requires
            self.wf(),
        ensures
            r matches Ok(resp) && resp.key@ == key@ && resp.versions@.len() == self.store.versions_of(
                object_path(key@),
            ).len() && forall|i: int|
                0 <= i < resp.versions@.len() ==> describes(
                    #[trigger] resp.versions@[i],
                    self.store.versions_of(object_path(key@))[i],
                ),
    {
        let versions = match self.store.list_versions(key) {
            Ok(v) => v,
            Err(e) => {
                return Err(e);
            },
        };
        let ghost listed = self.store.versions_of(object_path(key@));
        proof {
            self.store.lemma_recorded_lists();
        }
        let mut infos: Vec<VersionInfo> = Vec::new();
        let mut i: usize = 0;
        while i < versions.len()
            invariant
                i <= versions@.len(),
                metadata_views(versions@) == listed,
                forall|j: int| 0 <= j < listed.len() ==> (#[trigger] listed[j]).created_at.wf(),
                infos@.len() == i,
                forall|j: int| 0 <= j < i ==> describes(#[trigger] infos@[j], listed[j]),
            decreases versions@.len() - i,
        {
            let v = &versions[i];
            assert(listed[i as int] == v@);
            let created_at = utc_rfc3339(&v.created_at);
            let etag = match &v.etag {
                Some(e) => Some(e.clone()),
                None => None,
            };
            infos.push(
                VersionInfo {
                    version_id: v.version_id.clone(),
                    created_at,
                    size: v.size,
                    etag,
                },
            );
            i = i + 1;
        }
        Ok(ListVersionsResponse { key: String::from_str(key), versions: infos })
    }

    /// A copy of the bucket's lifecycle configuration, if it has one.
    pub fn get_lifecycle_config(&self, bucket: &str) -> (r: Result<
        Option<LifecycleConfiguration>,
        StoreError,
    >)
        requires
            self.wf(),
        ensures
            match r {
                Ok(Some(c)) => self.lifecycle_manager.spec_configs().dom().contains(bucket@)
                    && same_rule_lists(
                    c.rules@,
                    self.lifecycle_manager.spec_configs()[bucket@].rules@,
                ),
                Ok(None) => !self.lifecycle_manager.spec_configs().dom().contains(bucket@),
                Err(_) => false,
            },
    {
        self.lifecycle_manager.get_lifecycle_config(bucket)
    }

    /// Validates the configuration and stores it for the bucket.
    pub fn set_lifecycle_config(&mut self, bucket: &str, config: LifecycleConfiguration) -> (r:
        Result<(), StoreError>)
        requires
            old(self).wf(),
        ensures
            final(self).wf(),
            final(self).store == old(self).store,
            final(self).lifecycle_manager.spec_running() == old(self).lifecycle_manager.spec_running(),
            match first_problem(config.rules@) {
                Some(m) => (r matches Err(StoreError::InvalidLifecycleConfig(x)) && x@ == m)
                    && final(self).lifecycle_manager.spec_configs() == old(self).lifecycle_manager.spec_configs(),
                None => r is Ok && final(self).lifecycle_manager.spec_configs() == old(self).lifecycle_manager.spec_configs().insert(bucket@, config),
            },
    {
        self.lifecycle_manager.set_lifecycle_config(bucket, config)
    }

    /// Adopts the configuration MinIO answered for the bucket: converted to a storage
    /// lifecycle configuration (see [`domain_to_service`]), validated and stored for the
    /// bucket, and handed back. A failed read is handed back as it came.
    pub fn get_minio_lifecycle_config(
        &mut self,
        bucket: &str,
        fetched: Result<MinioLifecycleConfig, StoreError>,
    ) -> (r: Result<LifecycleConfiguration, StoreError>)
        requires
            old(self).wf(),
        ensures
            final(self).wf(),
            final(self).store == old(self).store,
            final(self).lifecycle_manager.spec_running() == old(self).lifecycle_manager.spec_running(),
            match fetched {
                Err(_) => r is Err && final(self).lifecycle_manager.spec_configs() == old(
                    self,
                ).lifecycle_manager.spec_configs(),
                Ok(d) => exists|c: LifecycleConfiguration|
                    #[trigger] store_ids(c.rules@) == ids_in_first_order(minio_ids(rule_models(d.rules@)))
                        && distinct_ids(c.rules@) && from_last_sources(
                        rule_models(d.rules@),
                        d.rules@.len() as int,
                        c.rules@,
                    ) && match first_problem(c.rules@) {
                        Some(m) => (r matches Err(StoreError::InvalidLifecycleConfig(x)) && x@ == m)
                            && final(self).lifecycle_manager.spec_configs() == old(
                            self,
                        ).lifecycle_manager.spec_configs(),
                        None => (r matches Ok(k) && same_rule_lists(k.rules@, c.rules@))
                            && final(self).lifecycle_manager.spec_configs() == old(
                            self,
                        ).lifecycle_manager.spec_configs().insert(bucket@, c),
                    },
            },
    {
        let domain = match fetched {
            Ok(d) => d,
            Err(e) => {
                return Err(e);
            },
        };
        let config = domain_to_service(&domain);
        let copy = config.clone();
        match self.lifecycle_manager.set_lifecycle_config(bucket, config) {
            Ok(()) => Ok(copy),
            Err(e) => Err(e),
        }
    }

    /// Stores the configuration for the bucket once MinIO has taken it (`sent`); a failed
    /// write is handed back as it came, with nothing stored.
    pub fn set_minio_lifecycle_config(
        &mut self,
        bucket: &str,
        config: &LifecycleConfiguration,
        sent: Result<(), StoreError>,
    ) -> (r: Result<(), StoreError>)
        requires
            old(self).wf(),
        ensures
            final(self).wf(),
            final(self).store == old(self).store,
            final(self).lifecycle_manager.spec_running() == old(self).lifecycle_manager.spec_running(),
            match sent {
                Err(_) => r is Err && final(self).lifecycle_manager.spec_configs() == old(
                    self,
                ).lifecycle_manager.spec_configs(),
                Ok(()) => exists|c: LifecycleConfiguration|
                    #[trigger] same_rule_lists(c.rules@, config.rules@) && match first_problem(c.rules@) {
                        Some(m) => (r matches Err(StoreError::InvalidLifecycleConfig(x)) && x@ == m)
                            && final(self).lifecycle_manager.spec_configs() == old(
                            self,
                        ).lifecycle_manager.spec_configs(),
                        None => r is Ok && final(self).lifecycle_manager.spec_configs() == old(
                            self,
                        ).lifecycle_manager.spec_configs().insert(bucket@, c),
                    },
            },
    {
        match sent {
            Ok(()) => {},
            Err(e) => {
                return Err(e);
            },
        }
        let copy = config.clone();
        self.lifecycle_manager.set_lifecycle_config(bucket, copy)
    }

    /// Serves a routed storage request. `body` and `metadata` are those of the request;
    /// `lifecycle` is its body read as a lifecycle configuration, `None` when it does not
    /// read as one. Errors are answered with their status code: a missing object with 404, a
    /// missing version with 500 (the store's own error), an invalid configuration with 400;
    /// an unreadable configuration is answered with 400. A lifecycle read of a bucket without
    /// a configuration answers an empty one.
    pub fn handle(
        &mut self,
        route: &Route,
        body: Vec<u8>,
        metadata: Option<TagMap>,
        lifecycle: Option<LifecycleConfiguration>,
    ) -> (r: StorageReply)
        requires
            old(self).wf(),
            metadata matches Some(m) ==> m.wf(),
        ensures
            final(self).wf(),
            handled(*old(self), *final(self), route@, body@, metadata, lifecycle, r),
    {
        match route {
            Route::ListVersions { bucket, key } => match self.list_object_versions(bucket, key) {
                Ok(resp) => StorageReply::Versions(resp),
                Err(e) => StorageReply::Status(e.status_code()),
            },
            Route::DeleteVersion { bucket, key, version } => match self.delete_object_version(
                bucket,
                key,
                version,
            ) {
                Ok(()) => StorageReply::Status(204),
                Err(e) => StorageReply::Status(e.status_code()),
            },
            Route::GetVersion { bucket, key, version } => match self.get_object_version(
                bucket,
                key,
                version,
            ) {
                Ok(d) => StorageReply::Data(d),
                Err(e) => StorageReply::Status(e.status_code()),
            },
            Route::GetLifecycle { bucket } => match self.get_lifecycle_config(bucket) {
                Ok(Some(c)) => StorageReply::Lifecycle(c),
                Ok(None) => StorageReply::Lifecycle(LifecycleConfiguration::new()),
                Err(e) => StorageReply::Status(e.status_code()),
            },
            Route::PutLifecycle { bucket } => match lifecycle {
                Some(c) => match self.set_lifecycle_config(bucket, c) {
                    Ok(()) => StorageReply::Status(200),
                    Err(e) => StorageReply::Status(e.status_code()),
                },
                None => StorageReply::Status(400),
            },
            Route::GetObject { bucket, key } => match self.get_object(bucket, key) {
                Ok(d) => StorageReply::Data(d),
                Err(e) => StorageReply::Status(e.status_code()),
            },
            Route::PutObject { bucket, key } => match self.put_object(bucket, key, body, metadata) {
                Ok(resp) => StorageReply::Created(resp),
                Err(e) => StorageReply::Status(e.status_code()),
            },
            Route::DeleteObject { bucket, key } => match self.delete_object(bucket, key) {
                Ok(()) => StorageReply::Status(204),
                Err(e) => StorageReply::Status(e.status_code()),
            },
            Route::PassThrough => StorageReply::PassThrough,
        }
    }
}

/// What serving a routed request does: the reply `r`, and the service going from `before` to
/// `after` (see [`ObjectStoreService::handle`]).
pub open spec fn handled(
    before: ObjectStoreService,
    after: ObjectStoreService,
    route: RouteView,
    body: Seq<u8>,
    metadata: Option<TagMap>,
    lifecycle: Option<LifecycleConfiguration>,
    r: StorageReply,
) -> bool {
    match route {
        RouteView::ListVersions { key, .. } => {
            let listed = before.store.versions_of(object_path(key));
            &&& after == before
            &&& r matches StorageReply::Versions(resp)
            &&& resp.key@ == key
            &&& resp.versions@.len() == listed.len()
            &&& forall|i: int|
                0 <= i < resp.versions@.len() ==> describes(#[trigger] resp.versions@[i], listed[i])
        },
        RouteView::DeleteVersion { key, version, .. } => {
            &&& r == StorageReply::Status(204)
            &&& after.lifecycle_manager == before.lifecycle_manager
            &&& after.store.is_versioning() == before.store.is_versioning()
            &&& version_deleted(before.store, after.store, key, version)
        },
        RouteView::GetVersion { key, version, .. } => {
            let location = version_location(key, version);
            &&& after == before
            &&& if before.store.contents().dom().contains(location) {
                r matches StorageReply::Data(d) && d@ == before.store.contents()[location]
            } else {
                r == StorageReply::Status(500)
            }
        },
        RouteView::GetLifecycle { bucket } => {
            let configs = before.lifecycle_manager.spec_configs();
            &&& after == before
            &&& r matches StorageReply::Lifecycle(c)
            &&& if configs.dom().contains(bucket) {
                same_rule_lists(c.rules@, configs[bucket].rules@)
            } else {
                c.rules@.len() == 0
            }
        },
        RouteView::PutLifecycle { bucket } => {
            let configs = before.lifecycle_manager.spec_configs();
            &&& after.store == before.store
            &&& after.lifecycle_manager.spec_running() == before.lifecycle_manager.spec_running()
            &&& match lifecycle {
                Some(c) if first_problem(c.rules@) is None => r == StorageReply::Status(200)
                    && after.lifecycle_manager.spec_configs() == configs.insert(bucket, c),
                _ => r == StorageReply::Status(400) && after.lifecycle_manager.spec_configs()
                    == configs,
            }
        },
        RouteView::GetObject { key, .. } => {
            let location = object_path(key);
            &&& after == before
            &&& if before.store.contents().dom().contains(location) {
                r matches StorageReply::Data(d) && d@ == before.store.contents()[location]
            } else {
                r == StorageReply::Status(404)
            }
        },
        RouteView::PutObject { key, .. } => {
            &&& after.lifecycle_manager == before.lifecycle_manager
            &&& after.store.is_versioning() == before.store.is_versioning()
            &&& put_outcome(before.store, after.store, key, body)
            &&& r matches StorageReply::Created(resp)
            &&& uuid_text(resp.version_id@)
            &&& opt_view(resp.etag) == metadata_etag(metadata)
        },
        RouteView::DeleteObject { key, .. } => {
            &&& r == StorageReply::Status(204)
            &&& after.lifecycle_manager == before.lifecycle_manager
            &&& after.store.is_versioning() == before.store.is_versioning()
            &&& after.store.contents() == before.store.contents().remove(object_path(key))
            &&& after.store.version_lists() == before.store.version_lists()
        },
        RouteView::PassThrough => after == before && r == StorageReply::PassThrough,
    }
}

} // verus!
