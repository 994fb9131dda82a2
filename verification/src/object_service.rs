use vstd::prelude::*;

use crate::errors::{StorageError, StorageErrorView};
use crate::filter::opt_view;
use crate::memory_store::object_path;
use crate::models::{
    clone_opt_string, CreateObjectRequest, GetObjectRequest, ObjectMetadata, StorageObject,
};
use crate::object_repository::{has_live_version, InMemoryObjectRepository};
use crate::ports::ObjectInfo;
use crate::store::ApacheObjectStoreAdapter;
use crate::time::now;
use crate::value_objects::{ObjectKey, VersionId};

verus! {

/// The lowercase hexadecimal MD5 digest of the bytes, as `format!("{:x}", md5::compute(..))`
/// writes it.
pub uninterp spec fn md5_hex_text(data: Seq<u8>) -> Seq<char>;

/// `md5::compute` of the bytes, formatted with `{:x}`.
#[verifier::external_body]
pub(crate) fn md5_hex(data: &[u8]) -> (r: String)
    ensures
        r@ == md5_hex_text(data@),
{
    format!("{:x}", md5::compute(data))
}

/// Object operations over a metadata repository and a byte store.
pub struct ObjectServiceImpl {
    repository: InMemoryObjectRepository,
    store: ApacheObjectStoreAdapter,
}

impl ObjectServiceImpl {
    /// The metadata repository.
    pub closed spec fn spec_repository(self) -> InMemoryObjectRepository {
        self.repository
    }

    /// The byte store.
    pub closed spec fn spec_store(self) -> ApacheObjectStoreAdapter {
        self.store
    }

    /// The repository is well formed.
    pub open spec fn wf(self) -> bool {
        self.spec_repository().wf()
    }

    /// A service over this repository and store.
    pub fn new(repository: InMemoryObjectRepository, store: ApacheObjectStoreAdapter) -> (r: Self)
        ensures
            r.spec_repository() == repository,
            r.spec_store() == store,
    {
        ObjectServiceImpl { repository, store }
    }

    /// The repository and the store, handed back, so that another service can take them up.
    pub fn into_parts(self) -> (r: (InMemoryObjectRepository, ApacheObjectStoreAdapter))
        ensures
            r.0 == self.spec_repository(),
            r.1 == self.spec_store(),
    {
        (self.repository, self.store)
    }

    /// The ETag of object data: its MD5 digest in lowercase hexadecimal.
    pub fn calculate_etag(&self, data: &[u8]) -> (r: String)
        ensures
            r@ == md5_hex_text(data@),
    {
        md5_hex(data)
    }

    /// Stores a new object: refused with `ObjectAlreadyExists` when the key has a live
    /// version; otherwise the bytes are stored and metadata is saved under a fresh version,
    /// with the length, the MD5 ETag and the current time.
    pub fn create_object(&mut self, request: CreateObjectRequest) -> (r: Result<StorageObject, StorageError>)
        requires
            old(self).wf(),
        ensures
            final(self).wf(),
            ({
                let exists = old(self).spec_repository().objects().dom().contains(request.key@)
                    && has_live_version(old(self).spec_repository().objects()[request.key@]);
                if exists {
                    r matches Err(e) && e@ == StorageErrorView::ObjectAlreadyExists { key: request.key@ }
                        && final(self).spec_store().contents() == old(self).spec_store().contents()
                        && final(self).spec_repository().objects() == old(self).spec_repository().objects()
                } else {
                    r matches Ok(o) && o.key@ == request.key@ && o.data@ == request.data@
                        && opt_view(o.metadata.content_type) == opt_view(request.content_type)
                        && o.metadata.content_length == request.data@.len()
                        && opt_view(o.metadata.etag) == Some(md5_hex_text(request.data@))
                        && o.metadata.custom_metadata@ == request.custom_metadata@
                        && o.metadata.last_modified.wf()
                        && final(self).spec_store().contents() == old(self).spec_store().contents().insert(
                        object_path(request.key@),
                        request.data@,
                    ) && final(self).spec_repository().objects().dom() == old(
                        self,
                    ).spec_repository().objects().dom().insert(request.key@)
                        && final(self).spec_repository().latest().dom().contains(request.key@)
                        && final(self).spec_repository().objects()[request.key@][final(self).spec_repository().latest()[request.key@]].metadata.same_as(o.metadata)
                }
            }),
    {
        match self.repository.object_exists(&request.key) {
            Ok(true) => {
                return Err(StorageError::ObjectAlreadyExists { key: request.key.clone() });
            },
            Ok(false) => {},
            Err(e) => { return Err(e); },
        }
        match self.store.put_object(&request.key, request.data.clone(), match &request.content_type {
            Some(c) => Some(c.as_str()),
            None => None,
        }) {
            Ok(()) => {},
            Err(e) => { return Err(e); },
        }
        let etag = self.calculate_etag(request.data.as_slice());
        let length = request.data.len() as u64;
        let metadata = ObjectMetadata {
            content_type: clone_opt_string(&request.content_type),
            content_length: length,
            etag: Some(etag),
            last_modified: now(),
            custom_metadata: request.custom_metadata,
        };
        let version_id = VersionId::generate();
        match self.repository.save_object_metadata(&request.key, &version_id, &metadata) {
            Ok(()) => {},
            Err(e) => { return Err(e); },
        }
        Ok(StorageObject { key: request.key, data: request.data, metadata })
    }

    /// An object with its metadata: that of the requested version, or else the latest;
    /// `ObjectNotFound` when there is none (or it is marked deleted) or when the store holds
    /// no bytes for the key.
    pub fn get_object(&self, request: GetObjectRequest) -> (r: Result<StorageObject, StorageError>)
        requires
            self.wf(),
        ensures
            ({
                let repo = self.spec_repository();
                let v = match request.version_id {
                    Some(x) => Some(x@),
                    None => if repo.latest().dom().contains(request.key@) {
                        Some(repo.latest()[request.key@])
                    } else {
                        None
                    },
                };
                let found = v is Some && repo.objects().dom().contains(request.key@)
                    && repo.objects()[request.key@].dom().contains(v->0)
                    && !repo.objects()[request.key@][v->0].deleted;
                let path = object_path(request.key@);
                if !found || !self.spec_store().contents().dom().contains(path) {
                    r matches Err(e) && e@ == StorageErrorView::ObjectNotFound { key: request.key@ }
                } else {
                    r matches Ok(o) && o.key@ == request.key@ && o.data@ == self.spec_store().contents()[path]
                        && o.metadata.same_as(repo.objects()[request.key@][v->0].metadata)
                }
            }),
    {
        let metadata = match self.repository.get_object_metadata(&request.key, match &request.version_id {
            Some(v) => Some(v),
            None => None,
        }) {
            Ok(Some(m)) => m,
            Ok(None) => {
                return Err(StorageError::ObjectNotFound { key: request.key.clone() });
            },
            Err(e) => { return Err(e); },
        };
        let data = match self.store.get_object(&request.key) {
            Ok(d) => d,
            Err(e) => { return Err(e); },
        };
        Ok(StorageObject { key: request.key, data, metadata })
    }

    /// Deletes an object: `ObjectNotFound` unless it has a live version; otherwise its bytes
    /// are removed and its latest version, when it has a valid one, is marked deleted.
    pub fn delete_object(&mut self, key: &ObjectKey) -> (r: Result<(), StorageError>)
        requires
            old(self).wf(),
        ensures
            final(self).wf(),
            ({
                let repo = old(self).spec_repository();
                if !(repo.objects().dom().contains(key@) && has_live_version(repo.objects()[key@])) {
                    r matches Err(e) && e@ == StorageErrorView::ObjectNotFound { key: key@ }
                        && final(self).spec_store().contents() == old(self).spec_store().contents()
                        && final(self).spec_repository().objects() == repo.objects()
                } else {
                    &&& final(self).spec_store().contents() == old(self).spec_store().contents().remove(
                        object_path(key@),
                    )
                    &&& final(self).spec_repository().latest() == repo.latest()
                    &&& if repo.latest().dom().contains(key@) && crate::value_objects::version_id_error(
                        repo.latest()[key@],
                    ) is None && repo.objects()[key@].dom().contains(repo.latest()[key@]) {
                        let v = repo.latest()[key@];
                        r is Ok && final(self).spec_repository().objects() == repo.objects().insert(
                            key@,
                            repo.objects()[key@].insert(
                                v,
                                crate::object_repository::StoredVersion {
                                    metadata: repo.objects()[key@][v].metadata,
                                    deleted: true,
                                },
                            ),
                        )
                    } else if repo.latest().dom().contains(key@) && crate::value_objects::version_id_error(
                        repo.latest()[key@],
                    ) is None {
                        r matches Err(e) && e@ == StorageErrorView::VersionNotFound {
                            key: key@,
                            version_id: repo.latest()[key@],
                        } && final(self).spec_repository().objects() == repo.objects()
                    } else {
                        r is Ok && final(self).spec_repository().objects() == repo.objects()
                    }
                }
            }),
    {
        match self.repository.object_exists(key) {
            Ok(true) => {},
            Ok(false) => {
                return Err(StorageError::ObjectNotFound { key: key.clone() });
            },
            Err(e) => { return Err(e); },
        }
        match self.store.delete_object(key) {
            Ok(()) => {},
            Err(e) => { return Err(e); },
        }
        match self.repository.get_latest_version_id(key) {
            Ok(Some(version_id)) => {
                match self.repository.mark_version_deleted(key, &version_id) {
                    Ok(()) => {},
                    Err(e) => { return Err(e); },
                }
            },
            Ok(None) => {},
            Err(e) => { return Err(e); },
        }
        Ok(())
    }

    /// The objects below the prefix, at most `max_results` of them, as the store lists them.
    pub fn list_objects(&self, prefix: Option<&str>, max_results: Option<usize>) -> (r: Result<
        Vec<ObjectInfo>,
        StorageError,
    >)
        ensures
            exists|listing: Seq<crate::memory_store::ListedObject>|
                crate::memory_store::is_listing_of(
                    listing,
                    self.spec_store().contents(),
                    crate::memory_store::prefix_root(prefix),
                ) && crate::store::listing_outcome(listing, max_results, r),
    {
        self.store.list_objects(prefix, max_results)
    }

    /// Replaces the metadata of the object's latest version: `ObjectNotFound` when it has no
    /// latest version with a valid id.
    pub fn update_metadata(&mut self, key: &ObjectKey, metadata: ObjectMetadata) -> (r: Result<
        (),
        StorageError,
    >)
        requires
            old(self).wf(),
        ensures
            final(self).wf(),
            final(self).spec_store() == old(self).spec_store(),
            ({
                let repo = old(self).spec_repository();
                if !(repo.latest().dom().contains(key@) && crate::value_objects::version_id_error(
                    repo.latest()[key@],
                ) is None) {
                    r matches Err(e) && e@ == StorageErrorView::ObjectNotFound { key: key@ }
                        && final(self).spec_repository().objects() == repo.objects()
                } else {
                    let v = repo.latest()[key@];
                    if repo.objects().dom().contains(key@) && repo.objects()[key@].dom().contains(v) {
                        r is Ok && final(self).spec_repository().objects()[key@][v].metadata.same_as(metadata)
                            && final(self).spec_repository().objects().dom() == repo.objects().dom()
                    } else {
                        r matches Err(e) && e@ == StorageErrorView::VersionNotFound { key: key@, version_id: v }
                            && final(self).spec_repository().objects() == repo.objects()
                    }
                }
            }),
    {
        let version_id = match self.repository.get_latest_version_id(key) {
            Ok(Some(v)) => v,
            Ok(None) => {
                return Err(StorageError::ObjectNotFound { key: key.clone() });
            },
            Err(e) => { return Err(e); },
        };
        self.repository.update_object_metadata(key, &version_id, &metadata)
    }

    /// Whether the object has a live version.
    pub fn object_exists(&self, key: &ObjectKey) -> (r: Result<bool, StorageError>)
        requires
            self.wf(),
        ensures
            r == Ok::<bool, StorageError>(self.spec_repository().objects().dom().contains(key@)
                && has_live_version(self.spec_repository().objects()[key@])),
    {
        self.repository.object_exists(key)
    }

    /// The size of the object's bytes in the store.
    pub fn get_object_size(&self, key: &ObjectKey) -> (r: Result<u64, StorageError>)
        ensures
            match r {
                Ok(n) => self.spec_store().contents().dom().contains(object_path(key@)) && n
                    == self.spec_store().contents()[object_path(key@)].len(),
                Err(e) => !self.spec_store().contents().dom().contains(object_path(key@)) && e@
                    == StorageErrorView::ObjectNotFound { key: key@ },
            },
    {
        self.store.get_object_size(key)
    }

    /// Copies the source object (its latest version) to the destination key, with its
    /// content type and custom metadata, as a new object there: `ObjectNotFound` for the
    /// source when it has no live latest version or no bytes, `ObjectAlreadyExists` when the
    /// destination has a live version.
    pub fn copy_object(&mut self, source_key: &ObjectKey, destination_key: &ObjectKey) -> (r: Result<
        StorageObject,
        StorageError,
    >)
        requires
            old(self).wf(),
        ensures
            final(self).wf(),
            ({
                let repo = old(self).spec_repository();
                let contents = old(self).spec_store().contents();
                let src = source_key@;
                let dst = destination_key@;
                let found = repo.latest().dom().contains(src) && repo.objects().dom().contains(src)
                    && repo.objects()[src].dom().contains(repo.latest()[src])
                    && !repo.objects()[src][repo.latest()[src]].deleted
                    && contents.dom().contains(object_path(src));
                if !found {
                    r matches Err(e) && e@ == StorageErrorView::ObjectNotFound { key: src }
                        && final(self).spec_store().contents() == contents
                        && final(self).spec_repository().objects() == repo.objects()
                } else if repo.objects().dom().contains(dst) && has_live_version(repo.objects()[dst]) {
                    r matches Err(e) && e@ == StorageErrorView::ObjectAlreadyExists { key: dst }
                        && final(self).spec_store().contents() == contents
                        && final(self).spec_repository().objects() == repo.objects()
                } else {
                    let meta = repo.objects()[src][repo.latest()[src]].metadata;
                    let data = contents[object_path(src)];
                    r matches Ok(o) && o.key@ == dst && o.data@ == data
                        && opt_view(o.metadata.content_type) == opt_view(meta.content_type)
                        && o.metadata.custom_metadata@ == meta.custom_metadata@
                        && o.metadata.content_length == data.len()
                        && opt_view(o.metadata.etag) == Some(md5_hex_text(data))
                        && final(self).spec_store().contents() == contents.insert(object_path(dst), data)
                        && final(self).spec_repository().latest().dom().contains(dst)
                }
            }),
    {
        let source = match self.get_object(GetObjectRequest { key: source_key.clone(), version_id: None }) {
            Ok(s) => s,
            Err(e) => { return Err(e); },
        };
        self.create_object(
            CreateObjectRequest {
                key: destination_key.clone(),
                data: source.data,
                content_type: source.metadata.content_type,
                custom_metadata: source.metadata.custom_metadata,
            },
        )
    }
}

/// Collects the parts of an object service.
pub struct ObjectServiceBuilder {
    repository: Option<InMemoryObjectRepository>,
    store: Option<ApacheObjectStoreAdapter>,
}

impl ObjectServiceBuilder {
    /// The repository given so far.
    pub closed spec fn spec_repository(self) -> Option<InMemoryObjectRepository> {
        self.repository
    }

    /// The store given so far.
    pub closed spec fn spec_store(self) -> Option<ApacheObjectStoreAdapter> {
        self.store
    }

    /// A builder with neither part.
    pub fn new() -> (r: Self)
        ensures
            r.spec_repository() is None,
            r.spec_store() is None,
    {
        ObjectServiceBuilder { repository: None, store: None }
    }

    /// Sets the repository.
    pub fn repository(self, repository: InMemoryObjectRepository) -> (r: Self)
        ensures
            r.spec_repository() == Some(repository),
            r.spec_store() == self.spec_store(),
    {
        ObjectServiceBuilder { repository: Some(repository), store: self.store }
    }

    /// Sets the store.
    pub fn store(self, store: ApacheObjectStoreAdapter) -> (r: Self)
        ensures
            r.spec_store() == Some(store),
            r.spec_repository() == self.spec_repository(),
    {
        ObjectServiceBuilder { repository: self.repository, store: Some(store) }
    }

    /// The service, once both parts are given; the repository is checked first.
    pub fn build(self) -> (r: Result<ObjectServiceImpl, &'static str>)
        ensures
            match (self.spec_repository(), self.spec_store()) {
                (Some(repo), Some(st)) => r matches Ok(s) && s.spec_repository() == repo && s.spec_store() == st,
                (None, _) => r matches Err(m) && m@ == "Repository is required"@,
                (Some(_), None) => r matches Err(m) && m@ == "Store is required"@,
            },
    {
        let repository = match self.repository {
            Some(r) => r,
            None => { return Err("Repository is required"); },
        };
        let store = match self.store {
            Some(s) => s,
            None => { return Err("Store is required"); },
        };
        Ok(ObjectServiceImpl::new(repository, store))
    }
}

} // verus!
