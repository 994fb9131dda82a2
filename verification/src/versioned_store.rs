use vstd::prelude::*;

use object_store::memory::InMemory;

use crate::keyed::{keyed_find, keyed_map, keyed_set, keyed_take, lemma_keyed_map, names_distinct};
use crate::memory_store::{
    is_listing_of, memory_contents, memory_copy, memory_delete, memory_get, memory_head_size,
    memory_list, memory_put, object_path, path_text, prefix_root, ListedObject, StoreFailure,
};
use crate::store::{random_uuid, uuid_text};
use crate::store_error::{ObjectStoreErrorKind, StoreError};
use crate::tags::TagMap;
use crate::text::{concat_str, push_str, str_eq};
use crate::time::{now, UtcTime};

verus! {

/// Metadata about one version of an object.
#[derive(Debug)]
pub struct VersionMetadata {
    /// The version's id.
    pub version_id: String,
    /// When the version was made.
    pub created_at: UtcTime,
    /// The size of the object in bytes.
    pub size: usize,
    pub etag: Option<String>,
    /// User metadata.
    pub user_metadata: Option<TagMap>,
}

/// A plain model of [`VersionMetadata`].
pub struct VersionMetadataView {
    pub version_id: Seq<char>,
    pub created_at: UtcTime,
    pub size: usize,
    pub etag: Option<Seq<char>>,
    pub user_metadata: Option<Map<Seq<char>, Seq<char>>>,
}

impl View for VersionMetadata {
    type V = VersionMetadataView;

    open spec fn view(&self) -> VersionMetadataView {
        VersionMetadataView {
            version_id: self.version_id@,
            created_at: self.created_at,
            size: self.size,
            etag: match self.etag {
                Some(e) => Some(e@),
                None => None,
            },
            user_metadata: match self.user_metadata {
                Some(m) => Some(m@),
                None => None,
            },
        }
    }
}

impl Clone for VersionMetadata {
    fn clone(&self) -> (r: Self)
        ensures
            r@ == self@,
    {
        VersionMetadata {
            version_id: self.version_id.clone(),
            created_at: self.created_at,
            size: self.size,
            etag: match &self.etag {
                Some(e) => Some(e.clone()),
                None => None,
            },
            user_metadata: match &self.user_metadata {
                Some(m) => Some(m.clone()),
                None => None,
            },
        }
    }
}

/// The models of a list of version metadata.
pub open spec fn metadata_views(v: Seq<VersionMetadata>) -> Seq<VersionMetadataView> {
    v.map_values(|m: VersionMetadata| m@)
}

/// The metadata recorded for a new version: its id, creation time and size, with no entity
/// tag and no user metadata.
pub open spec fn new_version(id: Seq<char>, created_at: UtcTime, size: usize) -> VersionMetadataView {
    VersionMetadataView { version_id: id, created_at, size, etag: None, user_metadata: None }
}

/// The string from which the path of a version is made: the object's path, `.v_` and the
/// version id.
pub open spec fn version_path(path: Seq<char>, version_id: Seq<char>) -> Seq<char> {
    object_path(path) + ".v_"@ + version_id
}

/// Where a version of the object put at `path` is stored.
pub open spec fn version_location(path: Seq<char>, version_id: Seq<char>) -> Seq<char> {
    object_path(version_path(path, version_id))
}

/// The list without the versions that carry this id, in order.
pub open spec fn without_version(s: Seq<VersionMetadataView>, id: Seq<char>) -> Seq<
    VersionMetadataView,
>
    decreases s.len(),
{
    if s.len() == 0 {
        s
    } else {
        let rest = without_version(s.drop_last(), id);
        if s.last().version_id == id {
            rest
        } else {
            rest.push(s.last())
        }
    }
}

/// Each recorded path has at least one version, each made at an instant in range.
pub open spec fn recorded_lists_ok(lists: Map<Seq<char>, Seq<VersionMetadataView>>) -> bool {
    forall|p: Seq<char>| #[trigger]
        lists.dom().contains(p) ==> lists[p].len() > 0 && forall|j: int|
            0 <= j < lists[p].len() ==> (#[trigger] lists[p][j]).created_at.wf()
}

/// What is left after removing a version is part of the list.
pub proof fn lemma_without_version_within(s: Seq<VersionMetadataView>, id: Seq<char>)
    ensures
        forall|j: int|
            0 <= j < without_version(s, id).len() ==> s.contains(#[trigger] without_version(s, id)[j]),
    decreases s.len(),
{
    if s.len() > 0 {
        lemma_without_version_within(s.drop_last(), id);
        let rest = without_version(s.drop_last(), id);
        assert forall|j: int| 0 <= j < without_version(s, id).len() implies s.contains(
            #[trigger] without_version(s, id)[j],
        ) by {
            if j < rest.len() {
                assert(without_version(s, id)[j] == rest[j]);
                assert(s.drop_last().contains(rest[j]));
                let k = choose|k: int| 0 <= k < s.drop_last().len() && s.drop_last()[k] == rest[j];
                assert(s[k] == rest[j]);
            } else {
                assert(without_version(s, id)[j] == s.last());
                assert(s[s.len() - 1] == s.last());
            }
        }
    }
}

/// `e` is the store error made of the failure of a call on the inner store.
pub open spec fn error_of_failure(e: StoreError, f: StoreFailure) -> bool {
    match f {
        StoreFailure::NotFound { path, message } => e matches StoreError::ObjectStore {
            kind: ObjectStoreErrorKind::NotFound { path: p },
            message: m,
        } && p@ == path@ && m@ == message@,
        StoreFailure::Other(message) => e matches StoreError::ObjectStore {
            kind: ObjectStoreErrorKind::Other,
            message: m,
        } && m@ == message@,
    }
}

/// `e` is the error for an object missing at this path.
pub open spec fn not_found_at(e: StoreError, location: Seq<char>) -> bool {
    e matches StoreError::ObjectStore { kind: ObjectStoreErrorKind::NotFound { path: p }, .. }
        && p@ == location
}

/// The store error for a failure of the inner store.
fn failure_error(f: StoreFailure) -> (r: StoreError)
    ensures
        error_of_failure(r, f),
{
    match f {
        StoreFailure::NotFound { path, message } => StoreError::ObjectStore {
            kind: ObjectStoreErrorKind::NotFound { path },
            message,
        },
        StoreFailure::Other(message) => StoreError::ObjectStore {
            kind: ObjectStoreErrorKind::Other,
            message,
        },
    }
}

/// An object store that keeps every version of what is put into it: each put is stored at
/// the object's path and, while versioning is on, also at a path of its own version, with
/// the version's metadata recorded by path.
pub struct VersionedStore {
    inner: InMemory,
    versions: Vec<(String, Vec<VersionMetadata>)>,
    versioning_enabled: bool,
}

impl VersionedStore {
    /// The objects held: their bytes by path.
    pub closed spec fn contents(self) -> Map<Seq<char>, Seq<u8>> {
        memory_contents(self.inner)
    }

    /// The versions recorded, by object path, oldest first.
    pub closed spec fn version_lists(self) -> Map<Seq<char>, Seq<VersionMetadataView>> {
        keyed_map(self.versions@).map_values(|v: Vec<VersionMetadata>| metadata_views(v@))
    }

    /// Whether puts make versions.
    pub closed spec fn is_versioning(self) -> bool {
        self.versioning_enabled
    }

    /// Paths are recorded once, and each recorded path has at least one version, each made
    /// at an instant in range.
    pub closed spec fn wf(self) -> bool {
        &&& names_distinct(self.versions@)
        &&& recorded_lists_ok(self.version_lists())
    }

    /// The versions recorded for an object path (none where it has no entry).
    pub open spec fn versions_of(self, location: Seq<char>) -> Seq<VersionMetadataView> {
        if self.version_lists().dom().contains(location) {
            self.version_lists()[location]
        } else {
            Seq::empty()
        }
    }

    /// Every recorded path has at least one version, each made at an instant in range.
    pub proof fn lemma_recorded_lists(self)
        requires
            self.wf(),
        ensures
            recorded_lists_ok(self.version_lists()),
    {
    }

    /// A store over `store`, with versioning on and no versions recorded.
    pub fn new(store: InMemory) -> (r: Self)
        ensures
            r.wf(),
            r.contents() == memory_contents(store),
            r.version_lists() == Map::<Seq<char>, Seq<VersionMetadataView>>::empty(),
            r.is_versioning(),
    {
        let r = VersionedStore { inner: store, versions: Vec::new(), versioning_enabled: true };
        assert(r.version_lists() =~= Map::<Seq<char>, Seq<VersionMetadataView>>::empty());
        r
    }

    /// Turns versioning on or off.
    pub fn enable_versioning(&mut self, enabled: bool)
        requires
            old(self).wf(),
        ensures
            final(self).wf(),
            final(self).is_versioning() == enabled,
            final(self).contents() == old(self).contents(),
            final(self).version_lists() == old(self).version_lists(),
    {
        self.versioning_enabled = enabled;
    }

    /// The string from which the path of a version is made.
    fn versioned_path(&self, path: &str, version_id: &str) -> (r: String)
        ensures
            r@ == version_path(path@, version_id@),
    {
        let mut p = path_text(path);
        push_str(&mut p, ".v_");
        push_str(&mut p, version_id);
        p
    }

    /// The index of the entry of an object path.
    fn entry_of(&self, location: &str) -> (r: Option<usize>)
        requires
            self.wf(),
        ensures
            match r {
                Some(i) => i < self.versions@.len() && self.versions@[i as int].0@ == location@
                    && self.version_lists().dom().contains(location@)
                    && self.version_lists()[location@] == metadata_views(
                    self.versions@[i as int].1@,
                ),
                None => !self.version_lists().dom().contains(location@),
            },
    {
        keyed_find(&self.versions, location)
    }

    /// The bytes of a version of the object at `path`.
    pub fn get_version(&self, path: &str, version_id: &str) -> (r: Result<Vec<u8>, StoreError>)
        ensures
            match r {
                Ok(d) => self.contents().dom().contains(version_location(path@, version_id@))
                    && d@ == self.contents()[version_location(path@, version_id@)],
                Err(e) => !self.contents().dom().contains(version_location(path@, version_id@))
                    && not_found_at(e, version_location(path@, version_id@)),
            },
    {
        let vp = self.versioned_path(path, version_id);
        match memory_get(&self.inner, vp.as_str()) {
            Ok(d) => Ok(d),
            Err(f) => Err(failure_error(f)),
        }
    }

    /// Copies of a list of version metadata.
    fn clone_list(list: &Vec<VersionMetadata>) -> (r: Vec<VersionMetadata>)
        ensures
            metadata_views(r@) == metadata_views(list@),
    {
        let mut r: Vec<VersionMetadata> = Vec::new();
        let mut i: usize = 0;
        while i < list.len()
            invariant
                i <= list@.len(),
                r@.len() == i,
                forall|j: int| 0 <= j < i ==> (#[trigger] r@[j])@ == list@[j]@,
            decreases list@.len() - i,
        {
            r.push(list[i].clone());
            i = i + 1;
        }
        assert(metadata_views(r@) =~= metadata_views(list@));
        r
    }

    /// The versions recorded for the object at `path`, oldest first (none where it has no
    /// entry).
    pub fn list_versions(&self, path: &str) -> (r: Result<Vec<VersionMetadata>, StoreError>)
        requires
            self.wf(),
        ensures
            r matches Ok(v) && metadata_views(v@) == self.versions_of(object_path(path@)),
    {
        let location = path_text(path);
        match self.entry_of(location.as_str()) {
            Some(i) => Ok(Self::clone_list(&self.versions[i].1)),
            None => {
                let v: Vec<VersionMetadata> = Vec::new();
                assert(metadata_views(v@) =~= Seq::<VersionMetadataView>::empty());
                Ok(v)
            },
        }
    }

    /// The metadata of the first recorded version of the object at `path` that carries this
    /// id, if any.
    pub fn get_version_metadata(&self, path: &str, version_id: &str) -> (r: Result<
        Option<VersionMetadata>,
        StoreError,
    >)
        requires
            self.wf(),
        ensures
            match r {
                Ok(Some(m)) => exists|i: int|
                    0 <= i < self.versions_of(object_path(path@)).len() && (#[trigger] self.versions_of(
                        object_path(path@),
                    )[i]) == m@ && m@.version_id == version_id@ && forall|j: int|
                        0 <= j < i ==> (#[trigger] self.versions_of(object_path(path@))[j]).version_id
                            != version_id@,
                Ok(None) => forall|j: int|
                    0 <= j < self.versions_of(object_path(path@)).len() ==> (#[trigger] self.versions_of(
                        object_path(path@),
                    )[j]).version_id != version_id@,
                Err(_) => false,
            },
    {
        let location = path_text(path);
        let ghost listed = self.versions_of(object_path(path@));
        match self.entry_of(location.as_str()) {
            Some(i) => {
                let list = &self.versions[i].1;
                let mut j: usize = 0;
                while j < list.len()
                    invariant
                        j <= list@.len(),
                        listed == metadata_views(list@),
                        listed == self.versions_of(object_path(path@)),
                        forall|k: int| 0 <= k < j ==> (#[trigger] listed[k]).version_id != version_id@,
                    decreases list@.len() - j,
                {
                    if str_eq(list[j].version_id.as_str(), version_id) {
                        let m = list[j].clone();
                        assert(listed[j as int] == list@[j as int]@);
                        assert(self.versions_of(object_path(path@))[j as int] == m@);
                        return Ok(Some(m));
                    }
                    assert(listed[j as int] == list@[j as int]@);
                    j = j + 1;
                }
                Ok(None)
            },
            None => Ok(None),
        }
    }

    /// Records a new version of the object at `path`, made now.
    fn add_version_metadata(&mut self, path: &str, version_id: String, size: usize) -> (created:
        UtcTime)
        requires
            old(self).wf(),
        ensures
            final(self).wf(),
            created.wf(),
            final(self).contents() == old(self).contents(),
            final(self).is_versioning() == old(self).is_versioning(),
            final(self).version_lists() == old(self).version_lists().insert(
                object_path(path@),
                old(self).versions_of(object_path(path@)).push(
                    new_version(version_id@, created, size),
                ),
            ),
    {
        let location = path_text(path);
        let created_at = now();
        let metadata = VersionMetadata {
            version_id,
            created_at,
            size,
            etag: None,
            user_metadata: None,
        };
        let ghost before = self.versions@;
        let mut list = match keyed_take(&mut self.versions, location.as_str()) {
            Some(l) => l,
            None => Vec::new(),
        };
        let ghost old_list = list@;
        list.push(metadata);
        proof {
            assert(metadata_views(list@) =~= metadata_views(old_list).push(
                new_version(version_id@, created_at, size),
            ));
            if keyed_map(before).dom().contains(location@) {
                assert(metadata_views(old_list) == old(self).versions_of(object_path(path@)));
            } else {
                assert(metadata_views(old_list) =~= Seq::<VersionMetadataView>::empty());
            }
        }
        keyed_set(&mut self.versions, location, list);
        proof {
            assert(self.version_lists() =~= old(self).version_lists().insert(
                object_path(path@),
                old(self).versions_of(object_path(path@)).push(
                    new_version(version_id@, created_at, size),
                ),
            ));
        }
        created_at
    }

    /// Removes a version of the object at `path`: the bytes stored for it and every record of
    /// it; a path left without versions loses its entry.
    pub fn delete_version(&mut self, path: &str, version_id: &str) -> (r: Result<(), StoreError>)
        requires
            old(self).wf(),
        ensures
            r is Ok,
            final(self).wf(),
            final(self).is_versioning() == old(self).is_versioning(),
            version_deleted(*old(self), *final(self), path@, version_id@),
    {
        let vp = self.versioned_path(path, version_id);
        memory_delete(&mut self.inner, vp.as_str());
        let location = path_text(path);
        let ghost before = self.versions@;
        let ghost lists_before = self.version_lists();
        match keyed_take(&mut self.versions, location.as_str()) {
            Some(list) => {
                let ghost listed = metadata_views(list@);
                let mut kept: Vec<VersionMetadata> = Vec::new();
                let mut i: usize = 0;
                while i < list.len()
                    invariant
                        i <= list@.len(),
                        listed == metadata_views(list@),
                        metadata_views(kept@) == without_version(listed.take(i as int), version_id@),
                    decreases list@.len() - i,
                {
                    proof {
                        assert(listed.take(i + 1).drop_last() =~= listed.take(i as int));
                    }
                    if !str_eq(list[i].version_id.as_str(), version_id) {
                        let ghost k0 = kept@;
                        kept.push(list[i].clone());
                        assert(metadata_views(kept@) =~= metadata_views(k0).push(listed[i as int]));
                    }
                    i = i + 1;
                }
                assert(listed.take(list@.len() as int) =~= listed);
                if kept.len() > 0 {
                    proof {
                        lemma_without_version_within(listed, version_id@);
                        let kept_v = without_version(listed, version_id@);
                        assert(lists_before.dom().contains(object_path(path@)));
                        assert(listed == lists_before[object_path(path@)]);
                        assert forall|j: int| 0 <= j < kept_v.len() implies (
                        #[trigger] kept_v[j]).created_at.wf() by {
                            assert(listed.contains(kept_v[j]));
                            let k = choose|k: int| 0 <= k < listed.len() && listed[k] == kept_v[j];
                            assert(lists_before[object_path(path@)][k].created_at.wf());
                        }
                    }
                    keyed_set(&mut self.versions, location, kept);
                    proof {
                        assert(self.version_lists() =~= lists_before.insert(
                            object_path(path@),
                            without_version(listed, version_id@),
                        ));
                    }
                } else {
                    proof {
                        assert(self.version_lists() =~= lists_before.remove(object_path(path@)));
                    }
                }
            },
            None => {
                proof {
                    assert(self.version_lists() =~= lists_before);
                }
            },
        }
        Ok(())
    }

    /// Stores the bytes at `path`. While versioning is on, they are first stored as a new
    /// version under a fresh id, whose metadata is recorded.
    pub fn put(&mut self, path: &str, data: Vec<u8>) -> (r: Result<(), StoreError>)
        requires
            old(self).wf(),
        ensures
            r is Ok,
            final(self).wf(),
            final(self).is_versioning() == old(self).is_versioning(),
            put_outcome(*old(self), *final(self), path@, data@),
    {
        if self.versioning_enabled {
            let version_id = random_uuid();
            let vp = self.versioned_path(path, version_id.as_str());
            let ghost id = version_id@;
            let size = data.len();
            let copy = data.clone();
            memory_put(&mut self.inner, vp.as_str(), copy);
            let created = self.add_version_metadata(path, version_id, size);
            memory_put(&mut self.inner, path, data);
            assert(versioned_put(*old(self), *self, path@, data@, id, created));
        } else {
            memory_put(&mut self.inner, path, data);
            assert(self.version_lists() == old(self).version_lists());
        }
        Ok(())
    }

    /// The bytes of the object at `path`.
    pub fn get(&self, path: &str) -> (r: Result<Vec<u8>, StoreError>)
        ensures
            match r {
                Ok(d) => self.contents().dom().contains(object_path(path@)) && d@
                    == self.contents()[object_path(path@)],
                Err(e) => !self.contents().dom().contains(object_path(path@)) && not_found_at(
                    e,
                    object_path(path@),
                ),
            },
    {
        match memory_get(&self.inner, path) {
            Ok(d) => Ok(d),
            Err(f) => Err(failure_error(f)),
        }
    }

    /// The size in bytes of the object at `path`.
    pub fn head(&self, path: &str) -> (r: Result<u64, StoreError>)
        ensures
            match r {
                Ok(n) => self.contents().dom().contains(object_path(path@)) && n
                    == self.contents()[object_path(path@)].len(),
                Err(e) => !self.contents().dom().contains(object_path(path@)) && not_found_at(
                    e,
                    object_path(path@),
                ),
            },
    {
        match memory_head_size(&self.inner, path) {
            Ok(n) => Ok(n),
            Err(f) => Err(failure_error(f)),
        }
    }

    /// The objects strictly below the prefix (all objects without one), in the order of
    /// their paths.
    pub fn list(&self, prefix: Option<&str>) -> (r: Result<Vec<ListedObject>, StoreError>)
        ensures
            r matches Ok(v) && is_listing_of(v@, self.contents(), prefix_root(prefix)),
    {
        match memory_list(&self.inner, prefix) {
            Ok(v) => Ok(v),
            Err(f) => Err(failure_error(f)),
        }
    }

    /// Removes the object at `path`; its versions stay.
    pub fn delete(&mut self, path: &str) -> (r: Result<(), StoreError>)
        requires
            old(self).wf(),
        ensures
            r is Ok,
            final(self).wf(),
            final(self).is_versioning() == old(self).is_versioning(),
            final(self).contents() == old(self).contents().remove(object_path(path@)),
            final(self).version_lists() == old(self).version_lists(),
    {
        memory_delete(&mut self.inner, path);
        Ok(())
    }

    /// Copies the object at `from` to `to`. While versioning is on, the copy is first stored
    /// as a new version of `to` under a fresh id, whose metadata is recorded. Nothing changes
    /// when there is no object at `from`.
    pub fn copy(&mut self, from: &str, to: &str) -> (r: Result<(), StoreError>)
        requires
            old(self).wf(),
        ensures
            final(self).wf(),
            final(self).is_versioning() == old(self).is_versioning(),
            match r {
                Ok(_) => old(self).contents().dom().contains(object_path(from@)) && put_outcome(
                    *old(self),
                    *final(self),
                    to@,
                    old(self).contents()[object_path(from@)],
                ),
                Err(e) => !old(self).contents().dom().contains(object_path(from@)) && not_found_at(
                    e,
                    object_path(from@),
                ) && final(self).contents() == old(self).contents() && final(self).version_lists()
                    == old(self).version_lists(),
            },
    {
        if self.versioning_enabled {
            let content = match memory_get(&self.inner, from) {
                Ok(d) => d,
                Err(f) => {
                    return Err(failure_error(f));
                },
            };
            let version_id = random_uuid();
            let ghost id = version_id@;
            let vp = self.versioned_path(to, version_id.as_str());
            let size = content.len();
            memory_put(&mut self.inner, vp.as_str(), content);
            let created = self.add_version_metadata(to, version_id, size);
            let ghost mid = memory_contents(self.inner);
            match memory_copy(&mut self.inner, from, to) {
                Ok(_) => {
                    assert(versioned_put(
                        *old(self),
                        *self,
                        to@,
                        old(self).contents()[object_path(from@)],
                        id,
                        created,
                    )) by {
                        assert(mid[object_path(from@)] == old(self).contents()[object_path(from@)]);
                    }
                    Ok(())
                },
                Err(f) => {
                    assert(mid.dom().contains(object_path(from@)));
                    Err(failure_error(f))
                },
            }
        } else {
            match memory_copy(&mut self.inner, from, to) {
                Ok(_) => {
                    assert(self.version_lists() == old(self).version_lists());
                    Ok(())
                },
                Err(f) => Err(failure_error(f)),
            }
        }
    }

    /// Copies the object at `from` to `to`, as [`VersionedStore::copy`] does.
    pub fn copy_if_not_exists(&mut self, from: &str, to: &str) -> (r: Result<(), StoreError>)
        requires
            old(self).wf(),
        ensures
            final(self).wf(),
            final(self).is_versioning() == old(self).is_versioning(),
            match r {
                Ok(_) => old(self).contents().dom().contains(object_path(from@)) && put_outcome(
                    *old(self),
                    *final(self),
                    to@,
                    old(self).contents()[object_path(from@)],
                ),
                Err(e) => !old(self).contents().dom().contains(object_path(from@)) && not_found_at(
                    e,
                    object_path(from@),
                ) && final(self).contents() == old(self).contents() && final(self).version_lists()
                    == old(self).version_lists(),
            },
    {
        self.copy(from, to)
    }
}

/// The removal of version `id` of the object put at `path`: its bytes leave the store, and
/// every record of it leaves the object's list, which goes when nothing is left of it.
pub open spec fn version_deleted(
    before: VersionedStore,
    after: VersionedStore,
    path: Seq<char>,
    id: Seq<char>,
) -> bool {
    let location = object_path(path);
    let kept = without_version(before.versions_of(location), id);
    &&& after.contents() == before.contents().remove(version_location(path, id))
    &&& if !before.version_lists().dom().contains(location) {
        after.version_lists() == before.version_lists()
    } else if kept.len() == 0 {
        after.version_lists() == before.version_lists().remove(location)
    } else {
        after.version_lists() == before.version_lists().insert(location, kept)
    }
}

/// A put of `data` at `path` with versioning on, as version `id` made at `created`: the
/// bytes are stored at the version's location and then at the object's path, and the
/// version is appended to the object's list.
pub open spec fn versioned_put(
    before: VersionedStore,
    after: VersionedStore,
    path: Seq<char>,
    data: Seq<u8>,
    id: Seq<char>,
    created: UtcTime,
) -> bool {
    &&& uuid_text(id)
    &&& created.wf()
    &&& data.len() <= usize::MAX
    &&& after.contents() == before.contents().insert(version_location(path, id), data).insert(
        object_path(path),
        data,
    )
    &&& after.version_lists() == before.version_lists().insert(
        object_path(path),
        before.versions_of(object_path(path)).push(new_version(id, created, data.len() as usize)),
    )
}

/// The outcome of storing `data` at `path`: with versioning on, a new version under some
/// fresh id; with it off, the bytes at the object's path and the versions unchanged.
pub open spec fn put_outcome(
    before: VersionedStore,
    after: VersionedStore,
    path: Seq<char>,
    data: Seq<u8>,
) -> bool {
    if before.is_versioning() {
        exists|id: Seq<char>, created: UtcTime| versioned_put(before, after, path, data, id, created)
    } else {
        &&& after.contents() == before.contents().insert(object_path(path), data)
        &&& after.version_lists() == before.version_lists()
    }
}

} // verus!
