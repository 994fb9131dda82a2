use vstd::prelude::*;
use vstd::string::*;

use object_store::memory::InMemory;

use crate::errors::{StorageError, StorageErrorView};
use crate::memory_store::{
    is_listing_of, memory_contents, memory_copy, memory_delete, memory_get, memory_head_size,
    memory_list, memory_put, object_path, prefix_root, ListedObject, StoreFailure,
};
use crate::ports::{CompletedPart, ObjectInfo};
use crate::text::{concat_str, is_digit, push_str};
use crate::time::UtcTime;
use crate::value_objects::{lemma_plain_version_id_valid, object_key_error, ObjectKey, VersionId};

verus! {

/// The message of a validation failure, prefixed.
pub open spec fn prefixed(prefix: Seq<char>, message: Seq<char>) -> Seq<char> {
    prefix + message
}

/// Object store adapter over `object_store`'s in-memory store, keyed by object paths.
pub struct ApacheObjectStoreAdapter {
    inner: InMemory,
}

impl ApacheObjectStoreAdapter {
    /// The objects held: their bytes by path.
    pub closed spec fn contents(self) -> Map<Seq<char>, Seq<u8>> {
        memory_contents(self.inner)
    }

    /// An adapter over the given store.
    pub fn new(store: InMemory) -> (r: ApacheObjectStoreAdapter)
        ensures
            r.contents() == memory_contents(store),
    {
        ApacheObjectStoreAdapter { inner: store }
    }

    /// Stores the bytes as the object with this key, replacing any earlier object there.
    pub fn put_object(&mut self, key: &ObjectKey, data: Vec<u8>, content_type: Option<&str>) -> (r:
        Result<(), StorageError>)
        ensures
            r is Ok,
            final(self).contents() == old(self).contents().insert(object_path(key@), data@),
    {
        memory_put(&mut self.inner, key.as_str(), data);
        Ok(())
    }

    /// The bytes of the object with this key, or `ObjectNotFound`.
    pub fn get_object(&self, key: &ObjectKey) -> (r: Result<Vec<u8>, StorageError>)
        ensures
            match r {
                Ok(d) => self.contents().dom().contains(object_path(key@)) && d@ == self.contents()[object_path(
                    key@,
                )],
                Err(e) => !self.contents().dom().contains(object_path(key@)) && e@
                    == StorageErrorView::ObjectNotFound { key: key@ },
            },
    {
        match memory_get(&self.inner, key.as_str()) {
            Ok(d) => Ok(d),
            Err(StoreFailure::NotFound { .. }) => Err(StorageError::ObjectNotFound { key: key.clone() }),
            Err(StoreFailure::Other(m)) => Err(
                StorageError::InfrastructureError {
                    message: concat_str("Failed to get object: ", m.as_str()),
                    source: Some(m),
                },
            ),
        }
    }

    /// Removes the object with this key, if there is one.
    pub fn delete_object(&mut self, key: &ObjectKey) -> (r: Result<(), StorageError>)
        ensures
            r is Ok,
            final(self).contents() == old(self).contents().remove(object_path(key@)),
    {
        memory_delete(&mut self.inner, key.as_str());
        Ok(())
    }

    /// Whether there is an object with this key.
    pub fn object_exists(&self, key: &ObjectKey) -> (r: Result<bool, StorageError>)
        ensures
            r == Ok::<bool, StorageError>(self.contents().dom().contains(object_path(key@))),
    {
        match memory_head_size(&self.inner, key.as_str()) {
            Ok(_) => Ok(true),
            Err(StoreFailure::NotFound { .. }) => Ok(false),
            Err(StoreFailure::Other(m)) => Err(
                StorageError::InfrastructureError {
                    message: concat_str("Failed to check object existence: ", m.as_str()),
                    source: Some(m),
                },
            ),
        }
    }

    /// The size in bytes of the object with this key, or `ObjectNotFound`.
    pub fn get_object_size(&self, key: &ObjectKey) -> (r: Result<u64, StorageError>)
        ensures
            match r {
                Ok(n) => self.contents().dom().contains(object_path(key@)) && n == self.contents()[object_path(
                    key@,
                )].len(),
                Err(e) => !self.contents().dom().contains(object_path(key@)) && e@
                    == StorageErrorView::ObjectNotFound { key: key@ },
            },
    {
        match memory_head_size(&self.inner, key.as_str()) {
            Ok(n) => Ok(n),
            Err(StoreFailure::NotFound { .. }) => Err(StorageError::ObjectNotFound { key: key.clone() }),
            Err(StoreFailure::Other(m)) => Err(
                StorageError::InfrastructureError {
                    message: concat_str("Failed to get object metadata: ", m.as_str()),
                    source: Some(m),
                },
            ),
        }
    }

    /// The objects below the prefix (all objects without one), in the order of their paths,
    /// at most `max_results` of them. Each path is validated as an object key; the first
    /// invalid one among those taken ends the listing with a validation error.
    pub fn list_objects(&self, prefix: Option<&str>, max_results: Option<usize>) -> (r: Result<
        Vec<ObjectInfo>,
        StorageError,
    >)
        ensures
            exists|listing: Seq<ListedObject>|
                is_listing_of(listing, self.contents(), prefix_root(prefix)) && listing_outcome(
                    listing,
                    max_results,
                    r,
                ),
    {
        let listing = match memory_list(&self.inner, prefix) {
            Ok(v) => v,
            Err(StoreFailure::NotFound { .. }) => Vec::new(),
            Err(StoreFailure::Other(m)) => Vec::new(),
        };
        let limit = match max_results {
            Some(m) => if m < listing.len() {
                m
            } else {
                listing.len()
            },
            None => listing.len(),
        };
        let ghost root = prefix_root(prefix);
        assert(is_listing_of(listing@, self.contents(), root));
        let mut out: Vec<ObjectInfo> = Vec::new();
        let mut i: usize = 0;
        while i < limit
            invariant
                is_listing_of(listing@, self.contents(), root),
                root == prefix_root(prefix),
                limit <= listing@.len(),
                limit == taken_count(listing@.len(), max_results),
                i <= limit,
                out@.len() == i,
                forall|k: int| 0 <= k < i ==> object_key_error((#[trigger] listing@[k]).location@) is None,
                forall|k: int| 0 <= k < i ==> info_from(#[trigger] out@[k], listing@[k]),
            decreases limit - i,
        {
            let item = &listing[i];
            match ObjectKey::new(item.location.clone()) {
                Ok(key) => {
                    let modified = match UtcTime::from_unix(item.modified_secs, item.modified_nanos) {
                        Some(t) => t,
                        None => UtcTime::epoch(),
                    };
                    let etag = match &item.etag {
                        Some(e) => Some(e.clone()),
                        None => None,
                    };
                    out.push(ObjectInfo { key, size: item.size, last_modified: modified, etag });
                },
                Err(e) => {
                    let m = e.message();
                    let r = Err(
                        StorageError::ValidationError {
                            message: concat_str("Invalid object key from store: ", m.as_str()),
                        },
                    );
                    proof {
                        assert(first_invalid_key(listing@, limit as int) == Some(i as int)) by {
                            lemma_first_invalid_key(listing@, i as int, limit as int);
                        }
                        assert(listing_outcome(listing@, max_results, r));
                    }
                    return r;
                },
            }
            i = i + 1;
        }
        proof {
            lemma_no_invalid_key(listing@, limit as int);
        }
        let r = Ok(out);
        assert(listing_outcome(listing@, max_results, r));
        r
    }

    /// Copies the object at the source key to the destination key; `ObjectNotFound` (for the
    /// source) when there is none.
    pub fn copy_object(&mut self, source_key: &ObjectKey, destination_key: &ObjectKey) -> (r: Result<
        (),
        StorageError,
    >)
        ensures
            match r {
                Ok(_) => old(self).contents().dom().contains(object_path(source_key@))
                    && final(self).contents() == old(self).contents().insert(
                    object_path(destination_key@),
                    old(self).contents()[object_path(source_key@)],
                ),
                Err(e) => !old(self).contents().dom().contains(object_path(source_key@)) && e@
                    == StorageErrorView::ObjectNotFound { key: source_key@ }
                    && final(self).contents() == old(self).contents(),
            },
    {
        match memory_copy(&mut self.inner, source_key.as_str(), destination_key.as_str()) {
            Ok(()) => Ok(()),
            Err(StoreFailure::NotFound { .. }) => Err(
                StorageError::ObjectNotFound { key: source_key.clone() },
            ),
            Err(StoreFailure::Other(m)) => Err(
                StorageError::InfrastructureError {
                    message: concat_str("Failed to copy object: ", m.as_str()),
                    source: Some(m),
                },
            ),
        }
    }

    /// Presigned URLs are not supported by this adapter.
    pub fn get_presigned_url(&self, key: &ObjectKey, expiration_seconds: u64) -> (r: Result<
        String,
        StorageError,
    >)
        ensures
            r matches Err(e) && e@ == (StorageErrorView::UnsupportedOperation {
                operation: "presigned_url"@,
                reason: "Not supported by this adapter"@,
            }),
    {
        Err(
            StorageError::UnsupportedOperation {
                operation: String::from_str("presigned_url"),
                reason: String::from_str("Not supported by this adapter"),
            },
        )
    }

    /// Multipart uploads are not supported by this adapter.
    pub fn create_multipart_upload(&self, key: &ObjectKey) -> (r: Result<String, StorageError>)
        ensures
            r matches Err(e) && e@ == (StorageErrorView::UnsupportedOperation {
                operation: "create_multipart_upload"@,
                reason: "Apache object_store uses different multipart API"@,
            }),
    {
        Err(
            StorageError::UnsupportedOperation {
                operation: String::from_str("create_multipart_upload"),
                reason: String::from_str("Apache object_store uses different multipart API"),
            },
        )
    }

    /// Multipart uploads are not supported by this adapter.
    pub fn upload_part(&self, key: &ObjectKey, upload_id: &str, part_number: u32, data: Vec<u8>) -> (r:
        Result<String, StorageError>)
        ensures
            r matches Err(e) && e@ == (StorageErrorView::UnsupportedOperation {
                operation: "upload_part"@,
                reason: "Multipart uploads need store-specific implementation"@,
            }),
    {
        Err(
            StorageError::UnsupportedOperation {
                operation: String::from_str("upload_part"),
                reason: String::from_str("Multipart uploads need store-specific implementation"),
            },
        )
    }

    /// Multipart uploads are not supported by this adapter.
    pub fn complete_multipart_upload(
        &self,
        key: &ObjectKey,
        upload_id: &str,
        parts: Vec<CompletedPart>,
    ) -> (r: Result<(), StorageError>)
        ensures
            r matches Err(e) && e@ == (StorageErrorView::UnsupportedOperation {
                operation: "complete_multipart_upload"@,
                reason: "Multipart uploads need store-specific implementation"@,
            }),
    {
        Err(
            StorageError::UnsupportedOperation {
                operation: String::from_str("complete_multipart_upload"),
                reason: String::from_str("Multipart uploads need store-specific implementation"),
            },
        )
    }

    /// Multipart uploads are not supported by this adapter.
    pub fn abort_multipart_upload(&self, key: &ObjectKey, upload_id: &str) -> (r: Result<
        (),
        StorageError,
    >)
        ensures
            r matches Err(e) && e@ == (StorageErrorView::UnsupportedOperation {
                operation: "abort_multipart_upload"@,
                reason: "Multipart uploads need store-specific implementation"@,
            }),
    {
        Err(
            StorageError::UnsupportedOperation {
                operation: String::from_str("abort_multipart_upload"),
                reason: String::from_str("Multipart uploads need store-specific implementation"),
            },
        )
    }
}

/// How many entries of a listing of `len` entries are taken with this limit.
pub open spec fn taken_count(len: nat, max_results: Option<usize>) -> nat {
    match max_results {
        Some(m) => if m < len {
            m as nat
        } else {
            len
        },
        None => len,
    }
}

/// The object information carries the entry's path as key and its size.
pub open spec fn info_from(info: ObjectInfo, entry: ListedObject) -> bool {
    info.key@ == entry.location@ && info.size == entry.size && info.last_modified.wf()
}

/// The position of the first entry among the first `n` whose path is no valid object key.
pub open spec fn first_invalid_key(listing: Seq<ListedObject>, n: int) -> Option<int>
    decreases n,
{
    if n <= 0 {
        None
    } else {
        match first_invalid_key(listing, n - 1) {
            Some(i) => Some(i),
            None => if object_key_error(listing[n - 1].location@) is Some {
                Some(n - 1)
            } else {
                None
            },
        }
    }
}

proof fn lemma_first_invalid_key(listing: Seq<ListedObject>, i: int, n: int)
    requires
        0 <= i < n,
        forall|k: int| 0 <= k < i ==> object_key_error((#[trigger] listing[k]).location@) is None,
        object_key_error(listing[i].location@) is Some,
    ensures
        first_invalid_key(listing, n) == Some(i),
    decreases n,
{
    if n - 1 > i {
        lemma_first_invalid_key(listing, i, n - 1);
    } else {
        lemma_no_invalid_prefix(listing, i);
    }
}

proof fn lemma_no_invalid_prefix(listing: Seq<ListedObject>, n: int)
    requires
        0 <= n,
        forall|k: int| 0 <= k < n ==> object_key_error((#[trigger] listing[k]).location@) is None,
    ensures
        first_invalid_key(listing, n) is None,
    decreases n,
{
    if n > 0 {
        lemma_no_invalid_prefix(listing, n - 1);
    }
}

proof fn lemma_no_invalid_key(listing: Seq<ListedObject>, n: int)
    requires
        0 <= n,
        forall|k: int| 0 <= k < n ==> object_key_error((#[trigger] listing[k]).location@) is None,
    ensures
        first_invalid_key(listing, n) is None,
{
    lemma_no_invalid_prefix(listing, n);
}

/// What listing returns for this listing of the store: a validation error for the first
/// entry taken whose path is no valid object key, or else the entries taken, in order.
pub open spec fn listing_outcome(
    listing: Seq<ListedObject>,
    max_results: Option<usize>,
    r: Result<Vec<ObjectInfo>, StorageError>,
) -> bool {
    let n = taken_count(listing.len(), max_results);
    match first_invalid_key(listing, n as int) {
        Some(i) => r matches Err(e) && e@ == (StorageErrorView::ValidationError {
            message: prefixed(
                "Invalid object key from store: "@,
                object_key_error(listing[i].location@)->0.message(),
            ),
        }),
        None => r matches Ok(v) && v@.len() == n && forall|k: int|
            0 <= k < n ==> info_from(#[trigger] v@[k], listing[k]),
    }
}

// ---------------------------------------------------------------------------
// Versioned adapter
// ---------------------------------------------------------------------------

/// The path at which a version of an object is stored: `{key}/.versions/{version}`.
pub open spec fn versioned_path_spec(key: Seq<char>, version: Seq<char>) -> Seq<char> {
    key + "/.versions/"@ + version
}

/// A version id drawn by `uuid`: 36 characters, hexadecimal digits and hyphens.
pub open spec fn uuid_text(s: Seq<char>) -> bool {
    s.len() == 36 && forall|i: int|
        0 <= i < s.len() ==> (is_digit(#[trigger] s[i]) || ('a' <= s[i] && s[i] <= 'f') || s[i]
            == '-')
}

/// `uuid::Uuid::new_v4().to_string()`: a random UUID in its hyphenated lowercase form
/// (32 hexadecimal digits in groups of 8-4-4-4-12).
#[verifier::external_body]
pub(crate) fn random_uuid() -> (r: String)
    ensures
        uuid_text(r@),
{
    uuid::Uuid::new_v4().to_string()
}

/// Versioned adapter: versions are stored as objects at `{key}/.versions/{version}`.
pub struct VersionedApacheObjectStoreAdapter {
    base: ApacheObjectStoreAdapter,
}

/// The error of building the key at a versioned path, with a message prefix.
pub open spec fn versioned_key_error(
    key: Seq<char>,
    version: Seq<char>,
    prefix: Seq<char>,
) -> Option<StorageErrorView> {
    match object_key_error(versioned_path_spec(key, version)) {
        Some(e) => Some(StorageErrorView::ValidationError { message: prefix + e.message() }),
        None => None,
    }
}

impl VersionedApacheObjectStoreAdapter {
    /// The objects held: their bytes by path.
    pub closed spec fn contents(self) -> Map<Seq<char>, Seq<u8>> {
        self.base.contents()
    }

    /// A versioned adapter over the given store.
    pub fn new(store: InMemory) -> (r: VersionedApacheObjectStoreAdapter)
        ensures
            r.contents() == memory_contents(store),
    {
        VersionedApacheObjectStoreAdapter { base: ApacheObjectStoreAdapter::new(store) }
    }

    /// A versioned adapter over the store of an unversioned one.
    pub fn from_base(base: ApacheObjectStoreAdapter) -> (r: VersionedApacheObjectStoreAdapter)
        ensures
            r.contents() == base.contents(),
    {
        VersionedApacheObjectStoreAdapter { base }
    }

    /// The unversioned adapter over the same store.
    pub fn into_base(self) -> (r: ApacheObjectStoreAdapter)
        ensures
            r.contents() == self.contents(),
    {
        self.base
    }

    /// The unversioned operations.
    pub fn base(&self) -> (r: &ApacheObjectStoreAdapter)
        ensures
            r.contents() == self.contents(),
    {
        &self.base
    }

    /// The unversioned operations, for changes.
    pub fn base_mut(&mut self) -> (r: &mut ApacheObjectStoreAdapter)
        ensures
            r.contents() == old(self).contents(),
            final(self).contents() == final(r).contents(),
    {
        &mut self.base
    }

    /// The path of a version of an object.
    fn versioned_path(&self, key: &ObjectKey, version_id: &VersionId) -> (r: String)
        ensures
            r@ == versioned_path_spec(key@, version_id@),
    {
        let mut p = concat_str(key.as_str(), "/.versions/");
        push_str(&mut p, version_id.as_str());
        p
    }

    /// The key at the versioned path, or a validation error with the message prefixed.
    fn versioned_key(&self, key: &ObjectKey, version_id: &VersionId, prefix: &str) -> (r: Result<
        ObjectKey,
        StorageError,
    >)
        ensures
            match versioned_key_error(key@, version_id@, prefix@) {
                Some(e) => r matches Err(err) && err@ == e,
                None => r matches Ok(k) && k@ == versioned_path_spec(key@, version_id@),
            },
    {
        let path = self.versioned_path(key, version_id);
        match ObjectKey::new(path) {
            Ok(k) => Ok(k),
            Err(e) => {
                let m = e.message();
                Err(StorageError::ValidationError { message: concat_str(prefix, m.as_str()) })
            },
        }
    }

    /// Stores the bytes as a version of the object.
    pub fn put_versioned_object(
        &mut self,
        key: &ObjectKey,
        version_id: &VersionId,
        data: Vec<u8>,
        content_type: Option<&str>,
    ) -> (r: Result<(), StorageError>)
        ensures
            match versioned_key_error(key@, version_id@, "Invalid versioned key: "@) {
                Some(e) => r matches Err(err) && err@ == e && final(self).contents() == old(self).contents(),
                None => r is Ok && final(self).contents() == old(self).contents().insert(
                    object_path(versioned_path_spec(key@, version_id@)),
                    data@,
                ),
            },
    {
        let vk = match self.versioned_key(key, version_id, "Invalid versioned key: ") {
            Ok(k) => k,
            Err(e) => {
                return Err(e);
            },
        };
        self.base.put_object(&vk, data, content_type)
    }

    /// The bytes of a version of the object.
    pub fn get_versioned_object(&self, key: &ObjectKey, version_id: &VersionId) -> (r: Result<
        Vec<u8>,
        StorageError,
    >)
        ensures
            match versioned_key_error(key@, version_id@, "Invalid versioned key: "@) {
                Some(e) => r matches Err(err) && err@ == e,
                None => {
                    let p = object_path(versioned_path_spec(key@, version_id@));
                    match r {
                        Ok(d) => self.contents().dom().contains(p) && d@ == self.contents()[p],
                        Err(e) => !self.contents().dom().contains(p) && e@
                            == StorageErrorView::ObjectNotFound {
                            key: versioned_path_spec(key@, version_id@),
                        },
                    }
                },
            },
    {
        let vk = match self.versioned_key(key, version_id, "Invalid versioned key: ") {
            Ok(k) => k,
            Err(e) => {
                return Err(e);
            },
        };
        self.base.get_object(&vk)
    }

    /// Removes a version of the object.
    pub fn delete_version(&mut self, key: &ObjectKey, version_id: &VersionId) -> (r: Result<
        (),
        StorageError,
    >)
        ensures
            match versioned_key_error(key@, version_id@, "Invalid versioned key: "@) {
                Some(e) => r matches Err(err) && err@ == e && final(self).contents() == old(self).contents(),
                None => r is Ok && final(self).contents() == old(self).contents().remove(
                    object_path(versioned_path_spec(key@, version_id@)),
                ),
            },
    {
        let vk = match self.versioned_key(key, version_id, "Invalid versioned key: ") {
            Ok(k) => k,
            Err(e) => {
                return Err(e);
            },
        };
        self.base.delete_object(&vk)
    }

    /// Whether a version of the object is stored.
    pub fn version_exists(&self, key: &ObjectKey, version_id: &VersionId) -> (r: Result<
        bool,
        StorageError,
    >)
        ensures
            match versioned_key_error(key@, version_id@, "Invalid versioned key: "@) {
                Some(e) => r matches Err(err) && err@ == e,
                None => r == Ok::<bool, StorageError>(
                    self.contents().dom().contains(
                        object_path(versioned_path_spec(key@, version_id@)),
                    ),
                ),
            },
    {
        let vk = match self.versioned_key(key, version_id, "Invalid versioned key: ") {
            Ok(k) => k,
            Err(e) => {
                return Err(e);
            },
        };
        self.base.object_exists(&vk)
    }

    /// Copies a version of the source object to a new, randomly named version of the
    /// destination object, and returns the new version id.
    pub fn copy_version(
        &mut self,
        source_key: &ObjectKey,
        source_version: &VersionId,
        destination_key: &ObjectKey,
    ) -> (r: Result<VersionId, StorageError>)
        ensures
            match versioned_key_error(source_key@, source_version@, "Invalid source versioned key: "@) {
                Some(e) => r matches Err(err) && err@ == e && final(self).contents() == old(self).contents(),
                None => {
                    let src = object_path(versioned_path_spec(source_key@, source_version@));
                    match r {
                        Ok(v) => uuid_text(v@) && object_key_error(
                            versioned_path_spec(destination_key@, v@),
                        ) is None && old(self).contents().dom().contains(src) && final(self).contents()
                            == old(self).contents().insert(
                            object_path(versioned_path_spec(destination_key@, v@)),
                            old(self).contents()[src],
                        ),
                        Err(e) => final(self).contents() == old(self).contents() && (
                        !old(self).contents().dom().contains(src) || (exists|v: Seq<char>|
                            uuid_text(v) && #[trigger] versioned_key_error(
                                destination_key@,
                                v,
                                "Invalid destination versioned key: "@,
                            ) == Some(e@))),
                    }
                },
            },
    {
        let source_versioned = match self.versioned_key(source_key, source_version, "Invalid source versioned key: ") {
            Ok(k) => k,
            Err(e) => {
                return Err(e);
            },
        };
        let drawn = random_uuid();
        proof {
            lemma_plain_version_id_valid(drawn@);
        }
        let new_version_id = match VersionId::new(drawn) {
            Ok(v) => v,
            Err(e) => {
                let m = e.message();
                return Err(
                    StorageError::ValidationError {
                        message: concat_str("Failed to create version ID: ", m.as_str()),
                    },
                );
            },
        };
        let dest_versioned = match self.versioned_key(
            destination_key,
            &new_version_id,
            "Invalid destination versioned key: ",
        ) {
            Ok(k) => k,
            Err(e) => {
                return Err(e);
            },
        };
        match self.base.copy_object(&source_versioned, &dest_versioned) {
            Ok(()) => Ok(new_version_id),
            Err(e) => Err(e),
        }
    }
}

} // verus!
