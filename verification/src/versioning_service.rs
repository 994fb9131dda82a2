use vstd::prelude::*;

use crate::errors::{StorageError, StorageErrorView};
use crate::filter::opt_view;
use crate::keyed::{keyed_find, keyed_map, keyed_set, lemma_keyed_map, names_distinct};
use crate::memory_store::object_path;
use crate::models::{
    clone_opt_string, CreateObjectRequest, DeleteVersionRequest, DeleteVersionResult,
    GetObjectRequest, ObjectMetadata, ObjectVersionInfo, ObjectVersionList, VersionedObject,
    VersioningConfiguration,
};
use crate::object_repository::{has_live_version, InMemoryObjectRepository, StoredVersion};
use crate::object_service::md5_hex_text;
use crate::ports::{MetadataChange, VersionComparison};
use crate::store::{uuid_text, versioned_key_error, versioned_path_spec, VersionedApacheObjectStoreAdapter};
use crate::text::str_eq;
use crate::time::now;
use crate::value_objects::{object_key_error, BucketName, ObjectKey, VersionId, version_id_error};

verus! {

/// Two optional strings hold the same text.
fn same_opt_text(a: &Option<String>, b: &Option<String>) -> (r: bool)
    ensures
        r == (opt_view(*a) == opt_view(*b)),
{
    match (a, b) {
        (Some(x), Some(y)) => str_eq(x.as_str(), y.as_str()),
        (None, None) => true,
        _ => false,
    }
}

/// The difference `b - a` of two sizes taken as signed numbers, wrapping around as a
/// release build does; it is exact when both sizes fit in an `i64`.
pub open spec fn size_difference_of(a: u64, b: u64) -> i64 {
    vstd::wrapping::i64_specs::wrapping_sub(b as i64, a as i64)
}

/// The versions are ordered newest first.
pub open spec fn newest_first(s: Seq<ObjectVersionInfo>) -> bool {
    forall|i: int, j: int|
        0 <= i < j < s.len() ==> (#[trigger] s[i]).last_modified@ >= (#[trigger] s[j]).last_modified@
}

/// The ids of the versions, in order.
pub open spec fn version_ids(s: Seq<ObjectVersionInfo>) -> Seq<Seq<char>> {
    s.map_values(|v: ObjectVersionInfo| v.version_id@)
}

/// The ids of the versions after the first `keep`, in order.
pub open spec fn pruned_ids(sorted: Seq<ObjectVersionInfo>, keep: usize) -> Seq<Seq<char>> {
    if sorted.len() > keep {
        version_ids(sorted.skip(keep as int))
    } else {
        Seq::empty()
    }
}

/// The recorded versions with version `v` of the object marked deleted.
pub open spec fn mark_deleted(
    objects: Map<Seq<char>, Map<Seq<char>, StoredVersion>>,
    key: Seq<char>,
    v: Seq<char>,
) -> Map<Seq<char>, Map<Seq<char>, StoredVersion>> {
    objects.insert(
        key,
        objects[key].insert(v, StoredVersion { metadata: objects[key][v].metadata, deleted: true }),
    )
}

/// The recorded versions with the listed versions of the object marked deleted, in order.
pub open spec fn mark_all_deleted(
    objects: Map<Seq<char>, Map<Seq<char>, StoredVersion>>,
    key: Seq<char>,
    ids: Seq<Seq<char>>,
) -> Map<Seq<char>, Map<Seq<char>, StoredVersion>>
    decreases ids.len(),
{
    if ids.len() == 0 {
        objects
    } else {
        mark_deleted(mark_all_deleted(objects, key, ids.drop_last()), key, ids.last())
    }
}

/// The stored bytes without those of the listed versions of the object.
pub open spec fn remove_versions(
    contents: Map<Seq<char>, Seq<u8>>,
    key: Seq<char>,
    ids: Seq<Seq<char>>,
) -> Map<Seq<char>, Seq<u8>>
    decreases ids.len(),
{
    if ids.len() == 0 {
        contents
    } else {
        remove_versions(contents, key, ids.drop_last()).remove(
            object_path(versioned_path_spec(key, ids.last())),
        )
    }
}

/// Marking versions deleted keeps every object and every version recorded.
proof fn lemma_mark_all_keeps(
    objects: Map<Seq<char>, Map<Seq<char>, StoredVersion>>,
    key: Seq<char>,
    ids: Seq<Seq<char>>,
)
    requires
        objects.dom().contains(key),
        forall|i: int| 0 <= i < ids.len() ==> objects[key].dom().contains(#[trigger] ids[i]),
    ensures
        mark_all_deleted(objects, key, ids).dom() == objects.dom(),
        mark_all_deleted(objects, key, ids)[key].dom() == objects[key].dom(),
    decreases ids.len(),
{
    if ids.len() > 0 {
        let t = ids.drop_last();
        assert forall|i: int| 0 <= i < t.len() implies objects[key].dom().contains(#[trigger] t[i]) by {
            assert(t[i] == ids[i]);
        }
        lemma_mark_all_keeps(objects, key, t);
        assert(ids.last() == ids[ids.len() - 1]);
        let m = mark_all_deleted(objects, key, t);
        assert(mark_all_deleted(objects, key, ids).dom() =~= objects.dom());
        assert(mark_all_deleted(objects, key, ids)[key].dom() =~= objects[key].dom());
    }
}

/// Orders the versions newest first; versions made at the same instant keep their order.
fn sort_newest_first(versions: Vec<ObjectVersionInfo>) -> (r: Vec<ObjectVersionInfo>)
    ensures
        r@.to_multiset() == versions@.to_multiset(),
        newest_first(r@),
{
    let ghost orig = versions@;
    let mut rest = versions;
    let mut sorted: Vec<ObjectVersionInfo> = Vec::new();
    proof {
        broadcast use vstd::multiset::group_multiset_axioms;

        vstd::seq_lib::to_multiset_len(sorted@);
        vstd::multiset::lemma_multiset_empty_len(sorted@.to_multiset());
        assert(sorted@.to_multiset().add(rest@.to_multiset()) =~= orig.to_multiset());
    }
    while rest.len() > 0
        invariant
            sorted@.to_multiset().add(rest@.to_multiset()) == orig.to_multiset(),
            newest_first(sorted@),
        decreases rest@.len(),
    {
        let ghost rest0 = rest@;
        let x = rest.pop().unwrap();
        assert(rest0 =~= rest@.push(x));
        proof {
            vstd::seq_lib::to_multiset_build(rest@, x);
        }
        let t = x.last_modified.total_nanos();
        let mut pos: usize = 0;
        while pos < sorted.len()
            invariant
                pos <= sorted@.len(),
                newest_first(sorted@),
                forall|k: int| 0 <= k < pos ==> (#[trigger] sorted@[k]).last_modified@ > t,
            ensures
                pos <= sorted@.len(),
                forall|k: int| 0 <= k < pos ==> (#[trigger] sorted@[k]).last_modified@ > t,
                pos < sorted@.len() ==> sorted@[pos as int].last_modified@ <= t,
            decreases sorted@.len() - pos,
        {
            if sorted[pos].last_modified.total_nanos() <= t {
                break;
            }
            pos = pos + 1;
        }
        let ghost s0 = sorted@;
        assert(forall|k: int| pos <= k < s0.len() ==> (#[trigger] s0[k]).last_modified@ <= t) by {
            assert forall|k: int| pos <= k < s0.len() implies (#[trigger] s0[k]).last_modified@ <= t by {
                if k > pos {
                    assert(s0[pos as int].last_modified@ >= s0[k].last_modified@);
                }
            }
        }
        sorted.insert(pos, x);
        proof {
            vstd::seq_lib::to_multiset_insert(s0, pos as int, x);
        }
        assert forall|i: int, j: int| 0 <= i < j < sorted@.len() implies (#[trigger] sorted@[i]).last_modified@
            >= (#[trigger] sorted@[j]).last_modified@ by {
            if i < pos && j < pos {
                assert(sorted@[i] == s0[i] && sorted@[j] == s0[j]);
            } else if i < pos && j == pos {
                assert(sorted@[i] == s0[i]);
            } else if i < pos {
                assert(sorted@[i] == s0[i] && sorted@[j] == s0[j - 1]);
            } else if i == pos {
                assert(sorted@[j] == s0[j - 1]);
            } else {
                assert(sorted@[i] == s0[i - 1] && sorted@[j] == s0[j - 1]);
            }
        }
        assert(sorted@.to_multiset().add(rest@.to_multiset()) =~= orig.to_multiset());
    }
    assert(rest@ =~= Seq::<ObjectVersionInfo>::empty());
    assert(sorted@.to_multiset() =~= orig.to_multiset());
    sorted
}

/// Versioned object operations over a metadata repository and a versioned byte store, with
/// versioning settings by bucket.
pub struct VersioningServiceImpl {
    repository: InMemoryObjectRepository,
    store: VersionedApacheObjectStoreAdapter,
    versioning_configs: Vec<(String, VersioningConfiguration)>,
}

impl VersioningServiceImpl {
    /// The metadata repository.
    pub closed spec fn spec_repository(self) -> InMemoryObjectRepository {
        self.repository
    }

    /// The versioned byte store.
    pub closed spec fn spec_store(self) -> VersionedApacheObjectStoreAdapter {
        self.store
    }

    /// The versioning settings, by bucket.
    pub closed spec fn configs(self) -> Map<Seq<char>, VersioningConfiguration> {
        keyed_map(self.versioning_configs@)
    }

    /// The repository is well formed and bucket names are distinct.
    pub closed spec fn wf(self) -> bool {
        self.repository.wf() && names_distinct(self.versioning_configs@)
    }

    /// A service over this repository and store, with no versioning settings.
    pub fn new(repository: InMemoryObjectRepository, store: VersionedApacheObjectStoreAdapter) -> (r: Self)
        requires
            repository.wf(),
        ensures
            r.wf(),
            r.spec_repository() == repository,
            r.spec_store() == store,
            r.configs() == Map::<Seq<char>, VersioningConfiguration>::empty(),
    {
        let r = VersioningServiceImpl { repository, store, versioning_configs: Vec::new() };
        assert(r.configs() =~= Map::<Seq<char>, VersioningConfiguration>::empty());
        r
    }

    /// Takes up another repository and store, handing back those held; the versioning
    /// settings stay.
    pub fn replace_parts(
        &mut self,
        repository: InMemoryObjectRepository,
        store: VersionedApacheObjectStoreAdapter,
    ) -> (r: (InMemoryObjectRepository, VersionedApacheObjectStoreAdapter))
        requires
            old(self).wf(),
            repository.wf(),
        ensures
            final(self).wf(),
            r.0 == old(self).spec_repository(),
            r.1 == old(self).spec_store(),
            r.0.wf(),
            final(self).spec_repository() == repository,
            final(self).spec_store() == store,
            final(self).configs() == old(self).configs(),
    {
        let mut held_repository = repository;
        let mut held_store = store;
        std::mem::swap(&mut self.repository, &mut held_repository);
        std::mem::swap(&mut self.store, &mut held_store);
        (held_repository, held_store)
    }

    /// Turns versioning on for the bucket, without a version limit.
    pub fn enable_versioning(&mut self, bucket: &BucketName) -> (r: Result<(), StorageError>)
        requires
            old(self).wf(),
        ensures
            r is Ok,
            final(self).wf(),
            final(self).spec_repository() == old(self).spec_repository(),
            final(self).spec_store() == old(self).spec_store(),
            final(self).configs() == old(self).configs().insert(
                bucket@,
                VersioningConfiguration { enabled: true, max_versions: None },
            ),
    {
        keyed_set(
            &mut self.versioning_configs,
            String::from_str(bucket.as_str()),
            VersioningConfiguration { enabled: true, max_versions: None },
        );
        Ok(())
    }

    /// Turns versioning off for the bucket, if it has settings; otherwise nothing changes.
    pub fn disable_versioning(&mut self, bucket: &BucketName) -> (r: Result<(), StorageError>)
        requires
            old(self).wf(),
        ensures
            r is Ok,
            final(self).wf(),
            final(self).spec_repository() == old(self).spec_repository(),
            final(self).spec_store() == old(self).spec_store(),
            final(self).configs() == if old(self).configs().dom().contains(bucket@) {
                old(self).configs().insert(
                    bucket@,
                    VersioningConfiguration {
                        enabled: false,
                        max_versions: old(self).configs()[bucket@].max_versions,
                    },
                )
            } else {
                old(self).configs()
            },
    {
        match keyed_find(&self.versioning_configs, bucket.as_str()) {
            Some(i) => {
                let c = self.versioning_configs[i].1;
                keyed_set(
                    &mut self.versioning_configs,
                    String::from_str(bucket.as_str()),
                    VersioningConfiguration { enabled: false, max_versions: c.max_versions },
                );
            },
            None => {},
        }
        Ok(())
    }

    /// The bucket's versioning settings; the defaults (enabled, no limit) when it has none.
    pub fn get_versioning_configuration(&self, bucket: &BucketName) -> (r: Result<
        VersioningConfiguration,
        StorageError,
    >)
        requires
            self.wf(),
        ensures
            r == Ok::<VersioningConfiguration, StorageError>(
                if self.configs().dom().contains(bucket@) {
                    self.configs()[bucket@]
                } else {
                    VersioningConfiguration { enabled: true, max_versions: None }
                },
            ),
    {
        match keyed_find(&self.versioning_configs, bucket.as_str()) {
            Some(i) => Ok(self.versioning_configs[i].1),
            None => Ok(VersioningConfiguration::default()),
        }
    }

    /// The bucket an object belongs to, for applying version limits: none is ever found, so
    /// no limit is applied when a version is written.
    fn extract_bucket_from_key(&self, key: &ObjectKey) -> (r: Option<BucketName>)
        ensures
            r is None,
    {
        None
    }

    /// Stores a new version under a fresh version id: its bytes in the versioned store, then
    /// its metadata (length, MD5 ETag, current time) as the object's latest version.
    pub fn create_versioned_object(&mut self, request: CreateObjectRequest) -> (r: Result<
        VersionedObject,
        StorageError,
    >)
        requires
            old(self).wf(),
        ensures
            final(self).wf(),
            final(self).configs() == old(self).configs(),
            create_outcome(
                *old(self),
                *final(self),
                request.key@,
                request.data@,
                opt_view(request.content_type),
                request.custom_metadata@,
                r,
            ),
    {
        let version_id = VersionId::generate();
        match self.store.put_versioned_object(&request.key, &version_id, request.data.clone(), match &request.content_type {
            Some(c) => Some(c.as_str()),
            None => None,
        }) {
            Ok(()) => {},
            Err(e) => { return Err(e); },
        }
        let metadata = ObjectMetadata {
            content_type: clone_opt_string(&request.content_type),
            content_length: request.data.len() as u64,
            etag: Some(self.calculate_etag(request.data.as_slice())),
            last_modified: now(),
            custom_metadata: request.custom_metadata,
        };
        match self.repository.save_object_metadata(&request.key, &version_id, &metadata) {
            Ok(()) => {},
            Err(e) => { return Err(e); },
        }
        match self.extract_bucket_from_key(&request.key) {
            Some(_) => {},
            None => {},
        }
        Ok(
            VersionedObject {
                key: request.key,
                version_id,
                data: request.data,
                metadata,
                is_latest: true,
                deleted: false,
            },
        )
    }

    /// Makes a version the latest again: reads it, then stores its bytes, content type and
    /// custom metadata as a new version under a fresh version id.
    pub fn restore_version(&mut self, key: &ObjectKey, version_id: &VersionId) -> (r: Result<
        VersionedObject,
        StorageError,
    >)
        requires
            old(self).wf(),
        ensures
            final(self).wf(),
            final(self).configs() == old(self).configs(),
            match r {
                Ok(_) => exists|got: VersionedObject|
                    old(self).get_outcome(key@, Some(version_id@), Ok(got)) && #[trigger] create_outcome(
                        *old(self),
                        *final(self),
                        key@,
                        got.data@,
                        opt_view(got.metadata.content_type),
                        got.metadata.custom_metadata@,
                        r,
                    ),
                Err(e) => (old(self).get_outcome(key@, Some(version_id@), r) && *final(self)
                    == *old(self)) || exists|got: VersionedObject|
                    old(self).get_outcome(key@, Some(version_id@), Ok(got)) && #[trigger] create_outcome(
                        *old(self),
                        *final(self),
                        key@,
                        got.data@,
                        opt_view(got.metadata.content_type),
                        got.metadata.custom_metadata@,
                        r,
                    ),
            },
    {
        let version = match self.get_object(
            GetObjectRequest { key: key.clone(), version_id: Some(version_id.clone()) },
        ) {
            Ok(v) => v,
            Err(e) => {
                return Err(e);
            },
        };
        let ghost got = version;
        self.create_versioned_object(
            CreateObjectRequest {
                key: key.clone(),
                data: version.data,
                content_type: version.metadata.content_type,
                custom_metadata: version.metadata.custom_metadata,
            },
        )
    }

    /// Deletes all but the `keep_count` newest versions of the object: lists its versions,
    /// orders them newest first and deletes those after the first `keep_count`, in that
    /// order, answering their ids. A failed deletion ends the pruning with its error.
    pub fn prune_versions(&mut self, key: &ObjectKey, keep_count: usize) -> (r: Result<
        Vec<VersionId>,
        StorageError,
    >)
        requires
            old(self).wf(),
        ensures
            final(self).wf(),
            final(self).configs() == old(self).configs(),
            exists|vs: Seq<ObjectVersionInfo>, sorted: Seq<ObjectVersionInfo>|
                #[trigger] old(self).spec_repository().lists_versions(key@, vs)
                    && sorted.to_multiset() == vs.to_multiset() && #[trigger] newest_first(sorted)
                    && prune_outcome(*old(self), *final(self), key@, pruned_ids(sorted, keep_count), r),
    {
        let list = match self.list_versions(key) {
            Ok(l) => l,
            Err(e) => {
                return Err(e);
            },
        };
        let ghost vs = list.versions@;
        let sorted = sort_newest_first(list.versions);
        let ghost del = pruned_ids(sorted@, keep_count);
        let ghost objects0 = self.spec_repository().objects();
        let ghost contents0 = self.spec_store().contents();
        proof {
            vstd::seq_lib::to_multiset_len(sorted@);
            vstd::seq_lib::to_multiset_len(vs);
        }
        let mut deleted: Vec<VersionId> = Vec::new();
        if sorted.len() > keep_count {
            let mut i: usize = keep_count;
            while i < sorted.len()
                invariant
                    keep_count <= i <= sorted@.len(),
                    self.wf(),
                    self.configs() == old(self).configs(),
                    objects0 == old(self).spec_repository().objects(),
                    contents0 == old(self).spec_store().contents(),
                    old(self).spec_repository().lists_versions(key@, vs),
                    sorted@.to_multiset() == vs.to_multiset(),
                    newest_first(sorted@),
                    del == pruned_ids(sorted@, keep_count),
                    sorted@.len() > keep_count,
                    del == version_ids(sorted@.skip(keep_count as int)),
                    deleted@.map_values(|v: VersionId| v@) == del.take(i - keep_count),
                    self.spec_repository().objects() == mark_all_deleted(
                        objects0,
                        key@,
                        del.take(i - keep_count),
                    ),
                    self.spec_store().contents() == remove_versions(
                        contents0,
                        key@,
                        del.take(i - keep_count),
                    ),
                decreases sorted@.len() - i,
            {
                let ghost done = del.take(i - keep_count);
                let ghost next = del.take(i - keep_count + 1);
                assert(next.drop_last() =~= done);
                assert(del[i - keep_count] == sorted@[i as int].version_id@);
                proof {
                    vstd::seq_lib::to_multiset_contains(sorted@, sorted@[i as int]);
                    vstd::seq_lib::to_multiset_contains(vs, sorted@[i as int]);
                    assert(sorted@.contains(sorted@[i as int]));
                    let j = choose|j: int| 0 <= j < vs.len() && vs[j] == sorted@[i as int];
                    assert(objects0.dom().contains(key@)) by {
                        if !objects0.dom().contains(key@) {
                            assert(vs.len() == 0);
                        }
                    }
                    assert(objects0[key@].dom().contains(vs[j].version_id@));
                    assert forall|t: int| 0 <= t < done.len() implies objects0[key@].dom().contains(
                        #[trigger] done[t],
                    ) by {
                        let u = keep_count + t;
                        assert(done[t] == sorted@[u].version_id@);
                        vstd::seq_lib::to_multiset_contains(sorted@, sorted@[u]);
                        vstd::seq_lib::to_multiset_contains(vs, sorted@[u]);
                        assert(sorted@.contains(sorted@[u]));
                        let w = choose|w: int| 0 <= w < vs.len() && vs[w] == sorted@[u];
                        assert(objects0[key@].dom().contains(vs[w].version_id@));
                    }
                    lemma_mark_all_keeps(objects0, key@, done);
                }
                let vid = sorted[i].version_id.clone();
                match self.delete_version(DeleteVersionRequest { key: key.clone(), version_id: vid.clone() }) {
                    Ok(_) => {},
                    Err(e) => {
                        assert(prune_outcome(*old(self), *self, key@, del, Err(e)));
                        return Err(e);
                    },
                }
                deleted.push(vid);
                assert(deleted@.map_values(|v: VersionId| v@) =~= next);
                i = i + 1;
            }
            assert(del.take(i - keep_count) =~= del);
        } else {
            assert(del =~= Seq::<Seq<char>>::empty());
            assert(deleted@.map_values(|v: VersionId| v@) =~= del);
            assert(mark_all_deleted(objects0, key@, del) == objects0);
            assert(remove_versions(contents0, key@, del) == contents0);
        }
        assert(prune_outcome(*old(self), *self, key@, del, Ok(deleted)));
        Ok(deleted)
    }

    /// The ETag of object data: its MD5 digest in lowercase hexadecimal.
    fn calculate_etag(&self, data: &[u8]) -> (r: String)
        ensures
            r@ == md5_hex_text(data@),
    {
        crate::object_service::md5_hex(data)
    }

    /// What reading a version of the object with this key gives: the requested version, or
    /// else the latest (`ObjectNotFound` when there is no valid latest); `VersionNotFound`
    /// when its metadata is missing, or when the latest is asked for and it is marked deleted
    /// (a version asked for by its id is read though the object was deleted); otherwise the
    /// version with its bytes, or the error of reaching them.
    pub open spec fn get_outcome(
        self,
        key: Seq<char>,
        version: Option<Seq<char>>,
        r: Result<VersionedObject, StorageError>,
    ) -> bool {
        let repo = self.spec_repository();
        let latest_valid = repo.latest().dom().contains(key) && version_id_error(
            repo.latest()[key],
        ) is None;
        match version {
            None if !latest_valid => r matches Err(e) && e@ == StorageErrorView::ObjectNotFound {
                key: key,
            },
            _ => {
                let v = match version {
                    Some(x) => x,
                    None => repo.latest()[key],
                };
                if !(repo.objects().dom().contains(key) && repo.objects()[key].dom().contains(v)
                    && (version is Some || !repo.objects()[key][v].deleted)) {
                    r matches Err(e) && e@ == StorageErrorView::VersionNotFound {
                        key: key,
                        version_id: v,
                    }
                } else {
                    match r {
                        Ok(o) => o.key@ == key && o.version_id@ == v && !o.deleted
                            && o.metadata.same_as(repo.objects()[key][v].metadata)
                            && versioned_key_error(key, v, "Invalid versioned key: "@) is None
                            && self.spec_store().contents().dom().contains(
                            object_path(versioned_path_spec(key, v)),
                        ) && o.data@ == self.spec_store().contents()[object_path(
                            versioned_path_spec(key, v),
                        )] && o.is_latest == (latest_valid && repo.latest()[key] == v),
                        Err(e) => versioned_key_error(key, v, "Invalid versioned key: "@)
                            == Some(e@) || (versioned_key_error(
                            key,
                            v,
                            "Invalid versioned key: "@,
                        ) is None && !self.spec_store().contents().dom().contains(
                            object_path(versioned_path_spec(key, v)),
                        ) && e@ == StorageErrorView::ObjectNotFound {
                            key: versioned_path_spec(key, v),
                        }),
                    }
                }
            },
        }
    }

    /// A version of an object: the requested one, or else the latest (`ObjectNotFound` when
    /// there is no valid latest); `VersionNotFound` when its metadata is missing, or when the
    /// latest is marked deleted; then its bytes from the versioned store.
    pub fn get_object(&self, request: GetObjectRequest) -> (r: Result<VersionedObject, StorageError>)
        requires
            self.wf(),
        ensures
            self.get_outcome(
                request.key@,
                match request.version_id {
                    Some(v) => Some(v@),
                    None => None,
                },
                r,
            ),
    {
        let by_id = request.version_id.is_some();
        let version_id = match request.version_id {
            Some(v) => v,
            None => match self.repository.get_latest_version_id(&request.key) {
                Ok(Some(v)) => v,
                Ok(None) => {
                    return Err(StorageError::ObjectNotFound { key: request.key.clone() });
                },
                Err(e) => { return Err(e); },
            },
        };
        let found = if by_id {
            self.repository.get_stored_metadata(&request.key, &version_id)
        } else {
            self.repository.get_object_metadata(&request.key, Some(&version_id))
        };
        let metadata = match found {
            Ok(Some(m)) => m,
            Ok(None) => {
                return Err(
                    StorageError::VersionNotFound {
                        key: request.key.clone(),
                        version_id: version_id.clone(),
                    },
                );
            },
            Err(e) => { return Err(e); },
        };
        let data = match self.store.get_versioned_object(&request.key, &version_id) {
            Ok(d) => d,
            Err(e) => { return Err(e); },
        };
        let is_latest = match self.repository.get_latest_version_id(&request.key) {
            Ok(Some(l)) => str_eq(l.as_str(), version_id.as_str()),
            Ok(None) => false,
            Err(e) => { return Err(e); },
        };
        Ok(
            VersionedObject {
                key: request.key,
                version_id,
                data,
                metadata,
                is_latest,
                deleted: false,
            },
        )
    }

    /// What is known of a version; `VersionNotFound` when there is no such version.
    pub fn get_version_info(&self, key: &ObjectKey, version_id: &VersionId) -> (r: Result<
        ObjectVersionInfo,
        StorageError,
    >)
        requires
            self.wf(),
        ensures
            ({
                let repo = self.spec_repository();
                if repo.objects().dom().contains(key@) && repo.objects()[key@].dom().contains(version_id@) {
                    let st = repo.objects()[key@][version_id@];
                    r matches Ok(info) && info.version_id@ == version_id@ && info.last_modified
                        == st.metadata.last_modified && info.size == st.metadata.content_length
                        && opt_view(info.etag) == opt_view(st.metadata.etag) && info.deleted == st.deleted
                        && info.is_latest == (repo.latest().dom().contains(key@) && repo.latest()[key@]
                        == version_id@)
                } else {
                    r matches Err(e) && e@ == StorageErrorView::VersionNotFound {
                        key: key@,
                        version_id: version_id@,
                    }
                }
            }),
    {
        match self.repository.get_version_info(key, version_id) {
            Ok(Some(info)) => Ok(info),
            Ok(None) => Err(
                StorageError::VersionNotFound { key: key.clone(), version_id: version_id.clone() },
            ),
            Err(e) => Err(e),
        }
    }

    /// Marks the version deleted in the repository, then removes its bytes from the store;
    /// reports that a delete marker was created.
    pub fn delete_version(&mut self, request: DeleteVersionRequest) -> (r: Result<
        DeleteVersionResult,
        StorageError,
    >)
        requires
            old(self).wf(),
        ensures
            final(self).wf(),
            final(self).configs() == old(self).configs(),
            delete_outcome(*old(self), *final(self), request.key@, request.version_id@, r),
    {
        match self.repository.mark_version_deleted(&request.key, &request.version_id) {
            Ok(()) => {},
            Err(e) => { return Err(e); },
        }
        match self.store.delete_version(&request.key, &request.version_id) {
            Ok(()) => {},
            Err(e) => { return Err(e); },
        }
        Ok(
            DeleteVersionResult {
                key: request.key,
                version_id: request.version_id,
                delete_marker_created: true,
            },
        )
    }

    /// The versions of the object, as the repository lists them.
    pub fn list_versions(&self, key: &ObjectKey) -> (r: Result<ObjectVersionList, StorageError>)
        requires
            self.wf(),
        ensures
            r matches Ok(list) && list.key@ == key@ && self.spec_repository().lists_versions(
                key@,
                list.versions@,
            ),
    {
        self.repository.list_object_versions(key)
    }

    /// Compares two versions: the size difference (second minus first) and, when their
    /// ETags differ, that change; the contents count as identical when the ETags agree.
    pub fn compare_versions(&self, key: &ObjectKey, version1: &VersionId, version2: &VersionId) -> (r:
        Result<VersionComparison, StorageError>)
        requires
            self.wf(),
        ensures
            ({
                let repo = self.spec_repository();
                let has1 = repo.objects().dom().contains(key@) && repo.objects()[key@].dom().contains(version1@);
                let has2 = repo.objects().dom().contains(key@) && repo.objects()[key@].dom().contains(version2@);
                if !has1 {
                    r matches Err(e) && e@ == StorageErrorView::VersionNotFound { key: key@, version_id: version1@ }
                } else if !has2 {
                    r matches Err(e) && e@ == StorageErrorView::VersionNotFound { key: key@, version_id: version2@ }
                } else {
                    let m1 = repo.objects()[key@][version1@].metadata;
                    let m2 = repo.objects()[key@][version2@].metadata;
                    let same = opt_view(m1.etag) == opt_view(m2.etag);
                    r matches Ok(c) && c.key@ == key@ && c.version1@ == version1@ && c.version2@ == version2@
                        && c.size_difference == size_difference_of(m1.content_length, m2.content_length)
                        && c.content_identical == same && (if same {
                        c.metadata_changes@.len() == 0
                    } else {
                        c.metadata_changes@.len() == 1 && c.metadata_changes@[0].field@ == "etag"@
                            && opt_view(c.metadata_changes@[0].old_value) == opt_view(m1.etag)
                            && opt_view(c.metadata_changes@[0].new_value) == opt_view(m2.etag)
                    })
                }
            }),
    {
        let v1 = match self.get_version_info(key, version1) {
            Ok(v) => v,
            Err(e) => { return Err(e); },
        };
        let v2 = match self.get_version_info(key, version2) {
            Ok(v) => v,
            Err(e) => { return Err(e); },
        };
        let mut metadata_changes: Vec<MetadataChange> = Vec::new();
        let same = same_opt_text(&v1.etag, &v2.etag);
        if !same {
            metadata_changes.push(
                MetadataChange {
                    field: String::from_str("etag"),
                    old_value: clone_opt_string(&v1.etag),
                    new_value: clone_opt_string(&v2.etag),
                },
            );
        }
        let a = v1.size as i64;
        let b = v2.size as i64;
        let size_difference = b.wrapping_sub(a);
        Ok(
            VersionComparison {
                key: key.clone(),
                version1: version1.clone(),
                version2: version2.clone(),
                size_difference,
                metadata_changes,
                content_identical: same,
            },
        )
    }

    /// Copies a version's bytes to a fresh version of the destination key in the store:
    /// refused when the source's versioned path is no valid key or holds no bytes, or when
    /// the destination's versioned path under the drawn version id is no valid key.
    pub fn copy_version(&mut self, source_key: &ObjectKey, source_version: &VersionId, destination_key: &ObjectKey) -> (r:
        Result<VersionId, StorageError>)
        requires
            old(self).wf(),
        ensures
            final(self).wf(),
            final(self).spec_repository() == old(self).spec_repository(),
            final(self).configs() == old(self).configs(),
            match versioned_key_error(source_key@, source_version@, "Invalid source versioned key: "@) {
                Some(e) => r matches Err(err) && err@ == e && final(self).spec_store().contents() == old(
                    self,
                ).spec_store().contents(),
                None => {
                    let src = object_path(versioned_path_spec(source_key@, source_version@));
                    let contents = old(self).spec_store().contents();
                    match r {
                        Ok(v) => uuid_text(v@) && object_key_error(
                            versioned_path_spec(destination_key@, v@),
                        ) is None && contents.dom().contains(src) && final(self).spec_store().contents()
                            == contents.insert(
                            object_path(versioned_path_spec(destination_key@, v@)),
                            contents[src],
                        ),
                        Err(e) => final(self).spec_store().contents() == contents && (
                        !contents.dom().contains(src) || (exists|v: Seq<char>|
                            uuid_text(v) && #[trigger] versioned_key_error(
                                destination_key@,
                                v,
                                "Invalid destination versioned key: "@,
                            ) == Some(e@))),
                    }
                },
            },
    {
        self.store.copy_version(source_key, source_version, destination_key)
    }

    /// Whether the store holds bytes for the version.
    pub fn version_exists(&self, key: &ObjectKey, version_id: &VersionId) -> (r: Result<bool, StorageError>)
        ensures
            match versioned_key_error(key@, version_id@, "Invalid versioned key: "@) {
                Some(e) => r matches Err(err) && err@ == e,
                None => r == Ok::<bool, StorageError>(
                    self.spec_store().contents().dom().contains(
                        object_path(versioned_path_spec(key@, version_id@)),
                    ),
                ),
            },
    {
        self.store.version_exists(key, version_id)
    }
}

/// What storing a new version of the object under a fresh version id does: on success the
/// version, holding the bytes, the content type, the custom metadata, their length and
/// MD5 ETag, is the object's latest, its bytes are stored at its versioned path and its
/// metadata is recorded; on failure (a versioned path that is no valid key) nothing changes.
pub open spec fn create_outcome(
    before: VersioningServiceImpl,
    after: VersioningServiceImpl,
    key: Seq<char>,
    data: Seq<u8>,
    content_type: Option<Seq<char>>,
    custom_metadata: Map<Seq<char>, Seq<char>>,
    r: Result<VersionedObject, StorageError>,
) -> bool {
    match r {
        Ok(o) => o.key@ == key && o.data@ == data && o.is_latest
            && !o.deleted && version_id_error(o.version_id@) is None
            && versioned_key_error(key, o.version_id@, "Invalid versioned key: "@) is None
            && opt_view(o.metadata.content_type) == content_type
            && o.metadata.content_length == data.len()
            && opt_view(o.metadata.etag) == Some(md5_hex_text(data))
            && o.metadata.custom_metadata@ == custom_metadata
            && after.spec_store().contents() == before.spec_store().contents().insert(
            object_path(versioned_path_spec(key, o.version_id@)),
            data,
        ) && after.spec_repository().latest() == before.spec_repository().latest().insert(
            key,
            o.version_id@,
        ) && after.spec_repository().objects()[key][o.version_id@].metadata.same_as(
            o.metadata,
        ),
        Err(e) => after.spec_store().contents() == before.spec_store().contents()
            && after.spec_repository().objects() == before.spec_repository().objects()
            && exists|v: Seq<char>|
            version_id_error(v) is None && #[trigger] versioned_key_error(
                key,
                v,
                "Invalid versioned key: "@,
            ) == Some(e@),
    }
}

/// What pruning down to the newest versions does, given the ids `del` of the versions to
/// delete in order: on success those ids, each version marked deleted and its bytes gone; on
/// a failed deletion (a versioned path that is no valid key), the error, the versions before
/// it deleted, and it marked deleted with its bytes kept.
pub open spec fn prune_outcome(
    before: VersioningServiceImpl,
    after: VersioningServiceImpl,
    key: Seq<char>,
    del: Seq<Seq<char>>,
    r: Result<Vec<VersionId>, StorageError>,
) -> bool {
    let objects = before.spec_repository().objects();
    let contents = before.spec_store().contents();
    match r {
        Ok(ids) => {
            &&& ids@.map_values(|v: VersionId| v@) == del
            &&& after.spec_repository().objects() == mark_all_deleted(objects, key, del)
            &&& after.spec_store().contents() == remove_versions(contents, key, del)
        },
        Err(e) => exists|k: int|
            0 <= k < del.len() && #[trigger] versioned_key_error(key, del[k], "Invalid versioned key: "@)
                == Some(e@) && after.spec_repository().objects() == mark_all_deleted(
                objects,
                key,
                del.take(k + 1),
            ) && after.spec_store().contents() == remove_versions(contents, key, del.take(k)),
    }
}

/// What deleting version `v` of the object with key `k` does: `VersionNotFound` when it is
/// not recorded; otherwise it is marked deleted and then its bytes are removed, unless its
/// versioned path is no valid key, which is the error.
pub open spec fn delete_outcome(
    before: VersioningServiceImpl,
    after: VersioningServiceImpl,
    k: Seq<char>,
    v: Seq<char>,
    r: Result<DeleteVersionResult, StorageError>,
) -> bool {
    let repo = before.spec_repository();
    if !(repo.objects().dom().contains(k) && repo.objects()[k].dom().contains(v)) {
        r matches Err(e) && e@ == StorageErrorView::VersionNotFound { key: k, version_id: v }
            && after.spec_store().contents() == before.spec_store().contents()
            && after.spec_repository().objects() == repo.objects()
    } else {
        &&& after.spec_repository().objects() == repo.objects().insert(
            k,
            repo.objects()[k].insert(
                v,
                StoredVersion { metadata: repo.objects()[k][v].metadata, deleted: true },
            ),
        )
        &&& match versioned_key_error(k, v, "Invalid versioned key: "@) {
            Some(e) => r matches Err(err) && err@ == e && after.spec_store().contents()
                == before.spec_store().contents(),
            None => r matches Ok(res) && res.key@ == k && res.version_id@ == v
                && res.delete_marker_created && after.spec_store().contents()
                == before.spec_store().contents().remove(object_path(versioned_path_spec(k, v))),
        }
    }
}

} // verus!
