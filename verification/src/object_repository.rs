use vstd::prelude::*;

use crate::errors::StorageError;
use crate::keyed::{keyed_find, keyed_map, keyed_remove, keyed_set, keyed_take, lemma_keyed_map, names_distinct};
use crate::models::{clone_opt_string, ObjectMetadata, ObjectVersionInfo, ObjectVersionList};
use crate::filter::opt_view;
use crate::memory_store::{lemma_str_less_total, lemma_str_less_transitive, str_less, string_less};
use crate::text::{chars_of, has_prefix, slice_starts_with};
use crate::value_objects::{object_key_error, ObjectKey, VersionId, version_id_error};

verus! {

/// A stored version: its metadata and whether it was marked deleted.
#[derive(Debug)]
pub struct StoredVersion {
    pub metadata: ObjectMetadata,
    pub deleted: bool,
}

/// The versions of an object, by version id.
pub open spec fn version_map(v: Vec<(String, StoredVersion)>) -> Map<Seq<char>, StoredVersion> {
    keyed_map(v@)
}

/// The object has a version that is not marked deleted.
pub open spec fn has_live_version(versions: Map<Seq<char>, StoredVersion>) -> bool {
    exists|v: Seq<char>| #[trigger] versions.dom().contains(v) && !versions[v].deleted
}

/// In-memory object metadata: the versions of each object, by key and version id, and the
/// latest version of each object.
pub struct InMemoryObjectRepository {
    objects: Vec<(String, Vec<(String, StoredVersion)>)>,
    latest_versions: Vec<(String, String)>,
}

/// An object is recorded under the key, which starts with the prefix and is a valid object
/// key.
pub open spec fn listed_key(
    objects: Map<Seq<char>, Map<Seq<char>, StoredVersion>>,
    prefix: Seq<char>,
    k: Seq<char>,
) -> bool {
    objects.dom().contains(k) && has_prefix(k, prefix) && object_key_error(k) is None
}

/// The keys taken as character sequences.
pub open spec fn key_views(ks: Seq<ObjectKey>) -> Seq<Seq<char>> {
    ks.map_values(|k: ObjectKey| k@)
}

/// The keys are in increasing order.
pub open spec fn strictly_ascending(ks: Seq<Seq<char>>) -> bool {
    forall|i: int, j: int| 0 <= i < j < ks.len() ==> str_less(#[trigger] ks[i], #[trigger] ks[j])
}

impl InMemoryObjectRepository {
    /// The version lists, by key.
    closed spec fn raw(self) -> Map<Seq<char>, Vec<(String, StoredVersion)>> {
        keyed_map(self.objects@)
    }

    /// The versions of each object, by key and version id.
    pub closed spec fn objects(self) -> Map<Seq<char>, Map<Seq<char>, StoredVersion>> {
        self.raw().map_values(|v: Vec<(String, StoredVersion)>| version_map(v))
    }

    /// The latest version id of each object.
    pub closed spec fn latest(self) -> Map<Seq<char>, Seq<char>> {
        keyed_map(self.latest_versions@).map_values(|s: String| s@)
    }

    /// Keys and version ids are distinct, and every stored object has a version.
    pub closed spec fn wf(self) -> bool {
        &&& names_distinct(self.objects@)
        &&& names_distinct(self.latest_versions@)
        &&& forall|k: Seq<char>|
            #[trigger] self.raw().dom().contains(k) ==> names_distinct(self.raw()[k]@)
                && self.raw()[k]@.len() > 0
    }

    /// Every stored object has a version.
    pub proof fn lemma_nonempty(self, k: Seq<char>)
        requires
            self.wf(),
            self.objects().dom().contains(k),
        ensures
            self.objects()[k].dom().len() > 0,
            self.objects()[k].dom().finite(),
    {
        lemma_keyed_map(self.raw()[k]@);
        assert(self.objects()[k] == version_map(self.raw()[k]));
        let e = self.raw()[k]@[0];
        assert(self.objects()[k].dom().contains(e.0@));
    }

    /// An empty repository.
    pub fn new() -> (r: Self)
        ensures
            r.wf(),
            r.objects() == Map::<Seq<char>, Map<Seq<char>, StoredVersion>>::empty(),
            r.latest() == Map::<Seq<char>, Seq<char>>::empty(),
    {
        let r = InMemoryObjectRepository { objects: Vec::new(), latest_versions: Vec::new() };
        assert(r.objects() =~= Map::<Seq<char>, Map<Seq<char>, StoredVersion>>::empty());
        assert(r.latest() =~= Map::<Seq<char>, Seq<char>>::empty());
        r
    }

    /// Stores metadata for a version and makes it the object's latest version.
    pub fn save_object_metadata(&mut self, key: &ObjectKey, version_id: &VersionId, metadata: &ObjectMetadata) -> (r:
        Result<(), StorageError>)
        requires
            old(self).wf(),
        ensures
            r is Ok,
            final(self).wf(),
            final(self).objects().dom() == old(self).objects().dom().insert(key@),
            final(self).objects()[key@].dom() == (if old(self).objects().dom().contains(key@) {
                old(self).objects()[key@].dom()
            } else {
                Set::empty()
            }).insert(version_id@),
            final(self).objects()[key@][version_id@].metadata.same_as(*metadata),
            !final(self).objects()[key@][version_id@].deleted,
            forall|v: Seq<char>|
                v != version_id@ && old(self).objects().dom().contains(key@) && #[trigger] old(
                    self,
                ).objects()[key@].dom().contains(v) ==> final(self).objects()[key@][v] == old(
                    self,
                ).objects()[key@][v],
            forall|k: Seq<char>|
                k != key@ && #[trigger] old(self).objects().dom().contains(k) ==> final(self).objects()[k]
                    == old(self).objects()[k],
            final(self).latest() == old(self).latest().insert(key@, version_id@),
    {
        let ghost old_raw = self.raw();
        let mut versions: Vec<(String, StoredVersion)> = match keyed_take(&mut self.objects, key.as_str()) {
            Some(v) => v,
            None => Vec::new(),
        };
        let ghost prior = versions@;
        proof {
            if old_raw.dom().contains(key@) {
                assert(names_distinct(prior));
            }
            lemma_keyed_map(prior);
        }
        keyed_set(
            &mut versions,
            String::from_str(version_id.as_str()),
            StoredVersion { metadata: metadata.clone(), deleted: false },
        );
        proof {
            lemma_keyed_map(versions@);
            assert(versions@.len() > 0) by {
                assert(keyed_map(versions@).dom().contains(version_id@));
            }
        }
        let ghost new_versions = versions;
        keyed_set(&mut self.objects, String::from_str(key.as_str()), versions);
        keyed_set(
            &mut self.latest_versions,
            String::from_str(key.as_str()),
            String::from_str(version_id.as_str()),
        );
        proof {
            assert(self.raw() == old_raw.remove(key@).insert(key@, new_versions));
            assert(self.objects().dom() =~= old(self).objects().dom().insert(key@));
            if old_raw.dom().contains(key@) {
                assert(keyed_map(prior).dom() =~= old(self).objects()[key@].dom());
            } else {
                assert(keyed_map(prior).dom() =~= Set::<Seq<char>>::empty());
            }
            assert(self.objects()[key@] == version_map(new_versions));
            assert(self.objects()[key@].dom() =~= keyed_map(prior).dom().insert(version_id@));
            assert(self.latest() =~= old(self).latest().insert(key@, version_id@));
        }
        Ok(())
    }

    /// The position of the key's version list.
    fn find_object(&self, key: &str) -> (r: Option<usize>)
        requires
            self.wf(),
        ensures
            match r {
                Some(i) => i < self.objects@.len() && self.objects@[i as int].0@ == key@
                    && self.objects().dom().contains(key@) && self.objects()[key@] == version_map(
                    self.objects@[i as int].1,
                ) && names_distinct(self.objects@[i as int].1@),
                None => !self.objects().dom().contains(key@),
            },
    {
        let r = keyed_find(&self.objects, key);
        proof {
            lemma_keyed_map(self.objects@);
            if let Some(i) = r {
                assert(self.raw()[key@] == self.objects@[i as int].1);
            }
        }
        r
    }

    /// The position of a version in the key's version list.
    fn find_version(&self, key: &str, version: &str) -> (r: Option<(usize, usize)>)
        requires
            self.wf(),
        ensures
            match r {
                Some((i, j)) => i < self.objects@.len() && j < self.objects@[i as int].1@.len()
                    && self.objects().dom().contains(key@) && self.objects()[key@].dom().contains(version@)
                    && self.objects()[key@][version@] == self.objects@[i as int].1@[j as int].1,
                None => !(self.objects().dom().contains(key@) && self.objects()[key@].dom().contains(
                    version@,
                )),
            },
    {
        match self.find_object(key) {
            Some(i) => {
                let versions = &self.objects[i].1;
                match keyed_find(versions, version) {
                    Some(j) => Some((i, j)),
                    None => None,
                }
            },
            None => None,
        }
    }

    /// The metadata of a version: the given one, or else the latest; nothing when that
    /// version is unknown or marked deleted.
    pub fn get_object_metadata(&self, key: &ObjectKey, version_id: Option<&VersionId>) -> (r: Result<
        Option<ObjectMetadata>,
        StorageError,
    >)
        requires
            self.wf(),
        ensures
            ({
                let v = match version_id {
                    Some(x) => Some(x@),
                    None => if self.latest().dom().contains(key@) {
                        Some(self.latest()[key@])
                    } else {
                        None
                    },
                };
                match v {
                    Some(v) => if self.objects().dom().contains(key@) && self.objects()[key@].dom().contains(v)
                        && !self.objects()[key@][v].deleted {
                        r matches Ok(Some(m)) && m.same_as(self.objects()[key@][v].metadata)
                    } else {
                        r matches Ok(None)
                    },
                    None => r matches Ok(None),
                }
            }),
    {
        let version: String = match version_id {
            Some(v) => String::from_str(v.as_str()),
            None => {
                proof {
                    lemma_keyed_map(self.latest_versions@);
                }
                match keyed_find(&self.latest_versions, key.as_str()) {
                    Some(i) => self.latest_versions[i].1.clone(),
                    None => { return Ok(None); },
                }
            },
        };
        match self.find_version(key.as_str(), version.as_str()) {
            Some((i, j)) => {
                let stored = &self.objects[i].1[j].1;
                if stored.deleted {
                    Ok(None)
                } else {
                    Ok(Some(stored.metadata.clone()))
                }
            },
            None => Ok(None),
        }
    }

    /// The metadata of a version, whether or not it is marked deleted; nothing when the
    /// version is unknown.
    pub fn get_stored_metadata(&self, key: &ObjectKey, version_id: &VersionId) -> (r: Result<
        Option<ObjectMetadata>,
        StorageError,
    >)
        requires
            self.wf(),
        ensures
            if self.objects().dom().contains(key@) && self.objects()[key@].dom().contains(version_id@) {
                r matches Ok(Some(m)) && m.same_as(self.objects()[key@][version_id@].metadata)
            } else {
                r matches Ok(None)
            },
    {
        match self.find_version(key.as_str(), version_id.as_str()) {
            Some((i, j)) => Ok(Some(self.objects[i].1[j].1.metadata.clone())),
            None => Ok(None),
        }
    }

    /// What is known of a version, whether or not it is marked deleted.
    pub fn get_version_info(&self, key: &ObjectKey, version_id: &VersionId) -> (r: Result<
        Option<ObjectVersionInfo>,
        StorageError,
    >)
        requires
            self.wf(),
        ensures
            if self.objects().dom().contains(key@) && self.objects()[key@].dom().contains(version_id@) {
                let st = self.objects()[key@][version_id@];
                r matches Ok(Some(info)) && info.version_id@ == version_id@ && info.last_modified
                    == st.metadata.last_modified && info.size == st.metadata.content_length
                    && opt_view(info.etag) == opt_view(st.metadata.etag) && info.deleted == st.deleted
                    && info.is_latest == (self.latest().dom().contains(key@) && self.latest()[key@]
                    == version_id@)
            } else {
                r matches Ok(None)
            },
    {
        match self.find_version(key.as_str(), version_id.as_str()) {
            Some((i, j)) => {
                let stored = &self.objects[i].1[j].1;
                proof {
                    lemma_keyed_map(self.latest_versions@);
                }
                let is_latest = match keyed_find(&self.latest_versions, key.as_str()) {
                    Some(l) => crate::text::str_eq(self.latest_versions[l].1.as_str(), version_id.as_str()),
                    None => false,
                };
                Ok(
                    Some(
                        ObjectVersionInfo {
                            version_id: version_id.clone(),
                            last_modified: stored.metadata.last_modified,
                            size: stored.metadata.content_length,
                            etag: clone_opt_string(&stored.metadata.etag),
                            is_latest,
                            deleted: stored.deleted,
                        },
                    ),
                )
            },
            None => Ok(None),
        }
    }

    /// The latest version id of the object, when it is a valid version id.
    pub fn get_latest_version_id(&self, key: &ObjectKey) -> (r: Result<Option<VersionId>, StorageError>)
        requires
            self.wf(),
        ensures
            if self.latest().dom().contains(key@) && version_id_error(self.latest()[key@]) is None {
                r matches Ok(Some(v)) && v@ == self.latest()[key@]
            } else {
                r matches Ok(None)
            },
    {
        proof {
            lemma_keyed_map(self.latest_versions@);
        }
        match keyed_find(&self.latest_versions, key.as_str()) {
            Some(i) => match VersionId::new(self.latest_versions[i].1.clone()) {
                Ok(v) => Ok(Some(v)),
                Err(_) => Ok(None),
            },
            None => Ok(None),
        }
    }

    /// Whether the object has a version that is not marked deleted.
    pub fn object_exists(&self, key: &ObjectKey) -> (r: Result<bool, StorageError>)
        requires
            self.wf(),
        ensures
            r == Ok::<bool, StorageError>(self.objects().dom().contains(key@) && has_live_version(
                self.objects()[key@],
            )),
    {
        match self.find_object(key.as_str()) {
            Some(i) => {
                let versions = &self.objects[i].1;
                let ghost m = version_map(self.objects@[i as int].1);
                proof {
                    lemma_keyed_map(versions@);
                }
                let mut j: usize = 0;
                while j < versions.len()
                    invariant
                        j <= versions@.len(),
                        names_distinct(versions@),
                        m == keyed_map(versions@),
                        self.objects().dom().contains(key@),
                        self.objects()[key@] == m,
                        forall|q: int| 0 <= q < j ==> (#[trigger] versions@[q]).1.deleted,
                    decreases versions@.len() - j,
                {
                    if !versions[j].1.deleted {
                        proof {
                            lemma_keyed_map(versions@);
                            assert(m.dom().contains(versions@[j as int].0@));
                            assert(m[versions@[j as int].0@] == versions@[j as int].1);
                        }
                        return Ok(true);
                    }
                    j = j + 1;
                }
                proof {
                    lemma_keyed_map(versions@);
                    assert forall|v: Seq<char>| #[trigger] m.dom().contains(v) implies m[v].deleted by {
                        let q = choose|q: int| 0 <= q < versions@.len() && (#[trigger] versions@[q]).0@ == v;
                        assert(m[versions@[q].0@] == versions@[q].1);
                    }
                }
                Ok(false)
            },
            None => Ok(false),
        }
    }

    /// Replaces a stored version by `f(old)`; `VersionNotFound` when there is no such version.
    fn replace_version(&mut self, key: &ObjectKey, version_id: &VersionId, deleted: Option<bool>, metadata: Option<ObjectMetadata>) -> (r:
        Result<(), StorageError>)
        requires
            old(self).wf(),
        ensures
            final(self).wf(),
            final(self).latest() == old(self).latest(),
            if old(self).objects().dom().contains(key@) && old(self).objects()[key@].dom().contains(version_id@) {
                let before = old(self).objects()[key@][version_id@];
                r is Ok && final(self).objects() == old(self).objects().insert(
                    key@,
                    old(self).objects()[key@].insert(
                        version_id@,
                        StoredVersion {
                            metadata: match metadata {
                                Some(m) => m,
                                None => before.metadata,
                            },
                            deleted: match deleted {
                                Some(d) => d,
                                None => before.deleted,
                            },
                        },
                    ),
                )
            } else {
                r matches Err(StorageError::VersionNotFound { key: k, version_id: v }) && k@ == key@
                    && v@ == version_id@ && final(self).objects() == old(self).objects()
            },
    {
        let ghost old_raw = self.raw();
        if self.find_version(key.as_str(), version_id.as_str()).is_none() {
            return Err(StorageError::VersionNotFound { key: key.clone(), version_id: version_id.clone() });
        }
        let mut versions = match keyed_take(&mut self.objects, key.as_str()) {
            Some(v) => v,
            None => Vec::new(),
        };
        let ghost prior = versions@;
        assert(names_distinct(prior));
        let stored = match keyed_take(&mut versions, version_id.as_str()) {
            Some(s) => s,
            None => {
                return Err(StorageError::VersionNotFound { key: key.clone(), version_id: version_id.clone() });
            },
        };
        let ghost stored_v = stored;
        let new_stored = StoredVersion {
            metadata: match metadata {
                Some(m) => m,
                None => stored.metadata,
            },
            deleted: match deleted {
                Some(d) => d,
                None => stored.deleted,
            },
        };
        let ghost ns = new_stored;
        keyed_set(&mut versions, String::from_str(version_id.as_str()), new_stored);
        proof {
            lemma_keyed_map(versions@);
            assert(versions@.len() > 0) by {
                assert(keyed_map(versions@).dom().contains(version_id@));
            }
            assert(keyed_map(versions@) =~= keyed_map(prior).insert(version_id@, ns));
        }
        let ghost new_versions = versions;
        keyed_set(&mut self.objects, String::from_str(key.as_str()), versions);
        proof {
            assert(self.raw() == old_raw.remove(key@).insert(key@, new_versions));
            assert(self.objects() =~= old(self).objects().insert(
                key@,
                old(self).objects()[key@].insert(version_id@, ns),
            ));
        }
        Ok(())
    }

    /// Marks a version as deleted; `VersionNotFound` when there is no such version.
    pub fn mark_version_deleted(&mut self, key: &ObjectKey, version_id: &VersionId) -> (r: Result<
        (),
        StorageError,
    >)
        requires
            old(self).wf(),
        ensures
            final(self).wf(),
            final(self).latest() == old(self).latest(),
            if old(self).objects().dom().contains(key@) && old(self).objects()[key@].dom().contains(version_id@) {
                let before = old(self).objects()[key@][version_id@];
                r is Ok && final(self).objects() == old(self).objects().insert(
                    key@,
                    old(self).objects()[key@].insert(
                        version_id@,
                        StoredVersion { metadata: before.metadata, deleted: true },
                    ),
                )
            } else {
                r matches Err(StorageError::VersionNotFound { key: k, version_id: v }) && k@ == key@
                    && v@ == version_id@ && final(self).objects() == old(self).objects()
            },
    {
        self.replace_version(key, version_id, Some(true), None)
    }

    /// Replaces the metadata of a version; `VersionNotFound` when there is no such version.
    pub fn update_object_metadata(&mut self, key: &ObjectKey, version_id: &VersionId, metadata: &ObjectMetadata) -> (r:
        Result<(), StorageError>)
        requires
            old(self).wf(),
        ensures
            final(self).wf(),
            final(self).latest() == old(self).latest(),
            if old(self).objects().dom().contains(key@) && old(self).objects()[key@].dom().contains(version_id@) {
                r is Ok && final(self).objects().dom() == old(self).objects().dom()
                    && final(self).objects()[key@].dom() == old(self).objects()[key@].dom()
                    && final(self).objects()[key@][version_id@].metadata.same_as(*metadata)
                    && final(self).objects()[key@][version_id@].deleted == old(self).objects()[key@][version_id@].deleted
                    && (forall|v: Seq<char>| v != version_id@ && #[trigger] old(self).objects()[key@].dom().contains(v)
                        ==> final(self).objects()[key@][v] == old(self).objects()[key@][v])
                    && (forall|k: Seq<char>| k != key@ && #[trigger] old(self).objects().dom().contains(k)
                        ==> final(self).objects()[k] == old(self).objects()[k])
            } else {
                r matches Err(StorageError::VersionNotFound { key: k, version_id: v }) && k@ == key@
                    && v@ == version_id@ && final(self).objects() == old(self).objects()
            },
    {
        let m = metadata.clone();
        self.replace_version(key, version_id, None, Some(m))
    }


    /// Removes a version's metadata. When it was the latest version, the remaining version
    /// not marked deleted that was modified last becomes the latest (none when there is no
    /// such version); an object left without versions is forgotten.
    pub fn delete_version_metadata(&mut self, key: &ObjectKey, version_id: &VersionId) -> (r: Result<
        (),
        StorageError,
    >)
        requires
            old(self).wf(),
        ensures
            final(self).wf(),
            !old(self).objects().dom().contains(key@) ==> (r matches Err(StorageError::ObjectNotFound { key: k })
                && k@ == key@ && final(self).objects() == old(self).objects() && final(self).latest()
                == old(self).latest()),
            (old(self).objects().dom().contains(key@) && !old(self).objects()[key@].dom().contains(version_id@))
                ==> (r matches Err(StorageError::VersionNotFound { key: k, version_id: v }) && k@ == key@
                && v@ == version_id@ && final(self).objects() == old(self).objects()
                && final(self).latest() == old(self).latest()),
            (old(self).objects().dom().contains(key@) && old(self).objects()[key@].dom().contains(version_id@))
                ==> {
                let rest = old(self).objects()[key@].remove(version_id@);
                let was_latest = old(self).latest().dom().contains(key@) && old(self).latest()[key@]
                    == version_id@;
                &&& r is Ok
                &&& final(self).objects() == (if rest.dom().len() == 0 {
                    old(self).objects().remove(key@)
                } else {
                    old(self).objects().insert(key@, rest)
                })
                &&& if rest.dom().len() == 0 {
                    final(self).latest() == old(self).latest().remove(key@)
                } else if !was_latest {
                    final(self).latest() == old(self).latest()
                } else if has_live_version(rest) {
                    final(self).latest().dom() == old(self).latest().dom()
                        && final(self).latest() == old(self).latest().insert(key@, final(self).latest()[key@])
                        && rest.dom().contains(final(self).latest()[key@])
                        && !rest[final(self).latest()[key@]].deleted
                        && forall|w: Seq<char>| #[trigger] rest.dom().contains(w) && !rest[w].deleted
                            ==> rest[w].metadata.last_modified@ <= rest[final(self).latest()[key@]].metadata.last_modified@
                } else {
                    final(self).latest() == old(self).latest().remove(key@)
                }
            },
    {
        let ghost old_raw = self.raw();
        let ghost old_objects = self.objects();
        let ghost old_latest = self.latest();
        if self.find_object(key.as_str()).is_none() {
            return Err(StorageError::ObjectNotFound { key: key.clone() });
        }
        if self.find_version(key.as_str(), version_id.as_str()).is_none() {
            return Err(StorageError::VersionNotFound { key: key.clone(), version_id: version_id.clone() });
        }
        proof {
            lemma_keyed_map(self.latest_versions@);
        }
        let was_latest = match keyed_find(&self.latest_versions, key.as_str()) {
            Some(l) => crate::text::str_eq(self.latest_versions[l].1.as_str(), version_id.as_str()),
            None => false,
        };
        assert(was_latest == (old_latest.dom().contains(key@) && old_latest[key@] == version_id@));
        let mut versions = match keyed_take(&mut self.objects, key.as_str()) {
            Some(v) => v,
            None => Vec::new(),
        };
        let ghost prior = versions@;
        assert(names_distinct(prior));
        let _ = keyed_take(&mut versions, version_id.as_str());
        let ghost rest = keyed_map(versions@);
        assert(rest =~= old_objects[key@].remove(version_id@));
        proof {
            lemma_keyed_map(versions@);
        }
        if versions.len() == 0 {
            keyed_remove(&mut self.latest_versions, key.as_str());
            proof {
                assert(rest.dom() =~= Set::<Seq<char>>::empty());
                assert(self.raw() == old_raw.remove(key@));
                assert(self.objects() =~= old_objects.remove(key@));
                assert(self.latest() =~= old_latest.remove(key@));
            }
            return Ok(());
        }
        proof {
            assert(rest.dom().contains(versions@[0].0@));
            assert(rest.dom().len() > 0) by {
                assert(rest.dom().finite());
            }
        }
        if was_latest {
            let mut best: Option<usize> = None;
            let mut i: usize = 0;
            while i < versions.len()
                invariant
                    i <= versions@.len(),
                    names_distinct(versions@),
                    rest == keyed_map(versions@),
                    match best {
                        Some(b) => b < i && !versions@[b as int].1.deleted && forall|q: int|
                            0 <= q < i && !(#[trigger] versions@[q]).1.deleted ==> versions@[q].1.metadata.last_modified@
                                <= versions@[b as int].1.metadata.last_modified@,
                        None => forall|q: int| 0 <= q < i ==> (#[trigger] versions@[q]).1.deleted,
                    },
                decreases versions@.len() - i,
            {
                if !versions[i].1.deleted {
                    match best {
                        Some(b) => {
                            if versions[b].1.metadata.last_modified.total_nanos() <= versions[i].1.metadata.last_modified.total_nanos() {
                                best = Some(i);
                            }
                        },
                        None => {
                            best = Some(i);
                        },
                    }
                }
                i = i + 1;
            }
            match best {
                Some(b) => {
                    let name = versions[b].0.clone();
                    proof {
                        lemma_keyed_map(versions@);
                        assert(rest[versions@[b as int].0@] == versions@[b as int].1);
                        assert forall|w: Seq<char>| #[trigger] rest.dom().contains(w) && !rest[w].deleted implies rest[w].metadata.last_modified@
                            <= rest[versions@[b as int].0@].metadata.last_modified@ by {
                            let q = choose|q: int| 0 <= q < versions@.len() && (#[trigger] versions@[q]).0@ == w;
                            assert(rest[versions@[q].0@] == versions@[q].1);
                        }
                    }
                    let ghost nv = name@;
                    keyed_set(&mut self.latest_versions, String::from_str(key.as_str()), name);
                    proof {
                        assert(self.latest() =~= old_latest.insert(key@, nv));
                        assert(rest.dom().contains(nv) && !rest[nv].deleted);
                        assert(has_live_version(rest));
                        assert(old_latest.dom().contains(key@));
                        assert(self.latest().dom() =~= old_latest.dom());
                    }
                },
                None => {
                    proof {
                        assert forall|w: Seq<char>| #[trigger] rest.dom().contains(w) implies rest[w].deleted by {
                            let q = choose|q: int| 0 <= q < versions@.len() && (#[trigger] versions@[q]).0@ == w;
                            assert(rest[versions@[q].0@] == versions@[q].1);
                        }
                    }
                    keyed_remove(&mut self.latest_versions, key.as_str());
                    proof {
                        assert(self.latest() =~= old_latest.remove(key@));
                        assert(!has_live_version(rest));
                    }
                },
            }
        }
        let ghost new_versions = versions;
        keyed_set(&mut self.objects, String::from_str(key.as_str()), versions);
        proof {
            assert(self.raw() == old_raw.remove(key@).insert(key@, new_versions));
            assert(self.objects() =~= old_objects.insert(key@, rest));
            if was_latest {
                assert(self.latest().dom() =~= old_latest.dom() || !has_live_version(rest));
            }
        }
        Ok(())
    }



    /// `vs` lists the versions of the object with this key, each once and each with what is
    /// recorded of it; a version whose id is not a valid version id may be left out.
    pub open spec fn lists_versions(self, key: Seq<char>, vs: Seq<ObjectVersionInfo>) -> bool {
        &&& forall|a: int, b: int| 0 <= a < b < vs.len() ==> (#[trigger] vs[a]).version_id@ != (#[trigger] vs[b]).version_id@
        &&& if self.objects().dom().contains(key) {
            let m = self.objects()[key];
            &&& forall|i: int| #![trigger vs[i]] 0 <= i < vs.len() ==> {
                let v = vs[i].version_id@;
                &&& m.dom().contains(v)
                &&& vs[i].last_modified == m[v].metadata.last_modified
                &&& vs[i].size == m[v].metadata.content_length
                &&& opt_view(vs[i].etag) == opt_view(m[v].metadata.etag)
                &&& vs[i].deleted == m[v].deleted
                &&& vs[i].is_latest == (self.latest().dom().contains(key) && self.latest()[key] == v)
            }
            &&& forall|v: Seq<char>| #[trigger] m.dom().contains(v) && version_id_error(v) is None
                ==> exists|i: int| 0 <= i < vs.len() && (#[trigger] vs[i]).version_id@ == v
        } else {
            vs.len() == 0
        }
    }

    /// The keys of the recorded objects that start with the prefix (keys that are no valid
    /// object key left out), in increasing order, the first `max_results` of them when given.
    pub fn list_objects_by_prefix(&self, prefix: &str, max_results: Option<usize>) -> (r: Result<
        Vec<ObjectKey>,
        StorageError,
    >)
        requires
            self.wf(),
        ensures
            r matches Ok(keys) && {
                let ks = key_views(keys@);
                &&& strictly_ascending(ks)
                &&& forall|i: int| 0 <= i < ks.len() ==> listed_key(self.objects(), prefix@, #[trigger] ks[i])
                &&& max_results matches Some(m) ==> ks.len() <= m
                &&& forall|k: Seq<char>|
                    #[trigger] listed_key(self.objects(), prefix@, k) && !ks.contains(k) ==> (
                    max_results matches Some(m) && ks.len() == m && forall|i: int|
                        0 <= i < ks.len() ==> str_less(#[trigger] ks[i], k))
            },
    {
        proof {
            lemma_keyed_map(self.objects@);
        }
        let ghost objs = self.objects();
        let ghost names = self.objects@;
        assert(forall|k: Seq<char>| objs.dom().contains(k) <==> keyed_map(names).dom().contains(k));
        let p = chars_of(prefix);
        let mut out: Vec<ObjectKey> = Vec::new();
        let mut i: usize = 0;
        while i < self.objects.len()
            invariant
                i <= names.len(),
                names == self.objects@,
                names_distinct(names),
                p@ == prefix@,
                objs == self.objects(),
                forall|k: Seq<char>| objs.dom().contains(k) <==> keyed_map(names).dom().contains(k),
                forall|k: Seq<char>| #[trigger] keyed_map(names).dom().contains(k) <==> exists|j: int|
                    0 <= j < names.len() && (#[trigger] names[j]).0@ == k,
                strictly_ascending(key_views(out@)),
                forall|t: int| 0 <= t < out@.len() ==> listed_key(objs, prefix@, #[trigger] key_views(out@)[t]),
                forall|t: int| 0 <= t < out@.len() ==> exists|j: int|
                    0 <= j < i && (#[trigger] names[j]).0@ == #[trigger] key_views(out@)[t],
                forall|j: int| 0 <= j < i && #[trigger] listed_key(objs, prefix@, names[j].0@) ==> key_views(out@).contains(names[j].0@),
            decreases names.len() - i,
        {
            let name = &self.objects[i].0;
            let nc = chars_of(name.as_str());
            let ghost x = names[i as int].0@;
            assert(keyed_map(names).dom().contains(x));
            if slice_starts_with(nc.as_slice(), p.as_slice()) {
                match ObjectKey::new(name.clone()) {
                    Ok(k) => {
                        let ghost before = key_views(out@);
                        assert(!before.contains(x)) by {
                            if before.contains(x) {
                                let t = choose|t: int| 0 <= t < before.len() && before[t] == x;
                                let j = choose|j: int| 0 <= j < i && (#[trigger] names[j]).0@ == key_views(out@)[t];
                                assert(names[j].0@ == names[i as int].0@);
                            }
                        }
                        let mut pos: usize = 0;
                        while pos < out.len()
                            invariant
                                pos <= out@.len(),
                                before == key_views(out@),
                                k@ == x,
                                forall|t: int| 0 <= t < pos ==> str_less(#[trigger] before[t], x),
                            ensures
                                pos <= out@.len(),
                                forall|t: int| 0 <= t < pos ==> str_less(#[trigger] before[t], x),
                                pos < out@.len() ==> !str_less(before[pos as int], x),
                            decreases out@.len() - pos,
                        {
                            assert(before[pos as int] == out@[pos as int]@);
                            if !string_less(out[pos].as_str(), k.as_str()) {
                                break;
                            }
                            pos = pos + 1;
                        }
                        proof {
                            assert forall|t: int| pos <= t < before.len() implies str_less(x, #[trigger] before[t]) by {
                                assert(before[pos as int] != x);
                                lemma_str_less_total(before[pos as int], x);
                                if t > pos {
                                    lemma_str_less_transitive(x, before[pos as int], before[t]);
                                }
                            }
                        }
                        out.insert(pos, k);
                        let ghost after = key_views(out@);
                        assert(after =~= before.insert(pos as int, x));
                        assert forall|a: int, b: int| 0 <= a < b < after.len() implies str_less(
                            #[trigger] after[a],
                            #[trigger] after[b],
                        ) by {
                            if b < pos {
                                assert(after[a] == before[a] && after[b] == before[b]);
                            } else if b == pos {
                                assert(after[a] == before[a]);
                            } else if a < pos {
                                assert(after[a] == before[a] && after[b] == before[b - 1]);
                                lemma_str_less_transitive(before[a], x, before[b - 1]);
                            } else if a == pos {
                                assert(after[b] == before[b - 1]);
                            } else {
                                assert(after[a] == before[a - 1] && after[b] == before[b - 1]);
                            }
                        }
                        assert forall|t: int| 0 <= t < out@.len() implies listed_key(objs, prefix@, #[trigger] key_views(out@)[t]) by {
                            if t < pos {
                                assert(after[t] == before[t]);
                            } else if t > pos {
                                assert(after[t] == before[t - 1]);
                            }
                        }
                        assert forall|t: int| 0 <= t < out@.len() implies exists|j: int|
                            0 <= j < i + 1 && (#[trigger] names[j]).0@ == #[trigger] key_views(out@)[t] by {
                            if t < pos {
                                assert(after[t] == before[t]);
                            } else if t > pos {
                                assert(after[t] == before[t - 1]);
                            } else {
                                assert(names[i as int].0@ == after[t]);
                            }
                        }
                        assert forall|j: int| 0 <= j < i + 1 && #[trigger] listed_key(objs, prefix@, names[j].0@) implies key_views(out@).contains(names[j].0@) by {
                            if j < i {
                                let t = choose|t: int| 0 <= t < before.len() && before[t] == names[j].0@;
                                if t < pos {
                                    assert(after[t] == before[t]);
                                } else {
                                    assert(after[t + 1] == before[t]);
                                }
                            } else {
                                assert(after[pos as int] == x);
                            }
                        }
                    },
                    Err(_) => {},
                }
            }
            i = i + 1;
        }
        let ghost full = key_views(out@);
        match max_results {
            Some(m) => {
                if m < out.len() {
                    out.truncate(m);
                    let ghost kept = key_views(out@);
                    assert(kept =~= full.subrange(0, m as int));
                    assert forall|k: Seq<char>| #[trigger] listed_key(objs, prefix@, k) && !kept.contains(k) implies (
                        kept.len() == m && forall|t: int| 0 <= t < kept.len() ==> str_less(#[trigger] kept[t], k)) by {
                        assert(objs.dom().contains(k));
                        let j = choose|j: int| 0 <= j < names.len() && (#[trigger] names[j]).0@ == k;
                        assert(full.contains(k));
                        let u = choose|u: int| 0 <= u < full.len() && full[u] == k;
                        if u < m {
                            assert(kept[u] == k);
                        }
                        assert forall|t: int| 0 <= t < kept.len() implies str_less(#[trigger] kept[t], k) by {
                            assert(kept[t] == full[t]);
                        }
                    }
                }
            },
            None => {},
        }
        proof {
            assert forall|k: Seq<char>| #[trigger] listed_key(objs, prefix@, k) && !key_views(out@).contains(k) implies (
                max_results matches Some(m) && key_views(out@).len() == m && forall|t: int|
                    0 <= t < key_views(out@).len() ==> str_less(#[trigger] key_views(out@)[t], k)) by {
                if !(max_results matches Some(m) && m < full.len()) {
                    assert(key_views(out@) == full);
                    let j = choose|j: int| 0 <= j < names.len() && (#[trigger] names[j]).0@ == k;
                }
            }
        }
        Ok(out)
    }

    /// The versions of the object, each once; a version whose id is not a valid version id
    /// is left out.
    #[verifier::rlimit(60)]
    #[verifier::spinoff_prover]
    pub fn list_object_versions(&self, key: &ObjectKey) -> (r: Result<ObjectVersionList, StorageError>)
        requires
            self.wf(),
        ensures
            r matches Ok(list) && list.key@ == key@ && self.lists_versions(key@, list.versions@),
    {
        let mut out: Vec<ObjectVersionInfo> = Vec::new();
        match self.find_object(key.as_str()) {
            Some(oi) => {
                let versions = &self.objects[oi].1;
                let ghost m = version_map(self.objects@[oi as int].1);
                proof {
                    lemma_keyed_map(versions@);
                    lemma_keyed_map(self.latest_versions@);
                }
                let latest_index = keyed_find(&self.latest_versions, key.as_str());
                let mut i: usize = 0;
                while i < versions.len()
                    invariant
                        i <= versions@.len(),
                        names_distinct(versions@),
                        m == keyed_map(versions@),
                        self.objects().dom().contains(key@),
                        self.objects()[key@] == m,
                        names_distinct(self.latest_versions@),
                        match latest_index {
                            Some(l) => l < self.latest_versions@.len() && self.latest_versions@[l as int].0@ == key@
                                && self.latest().dom().contains(key@) && self.latest()[key@] == self.latest_versions@[l as int].1@,
                            None => !self.latest().dom().contains(key@),
                        },
                        forall|a: int, b: int| 0 <= a < b < out@.len() ==> (#[trigger] out@[a]).version_id@ != (#[trigger] out@[b]).version_id@,
                        forall|q: int| #![trigger out@[q]] 0 <= q < out@.len() ==> exists|p: int| 0 <= p < i && (#[trigger] versions@[p]).0@ == out@[q].version_id@,
                        forall|q: int| #![trigger out@[q]] 0 <= q < out@.len() ==> {
                            let v = out@[q].version_id@;
                            &&& m.dom().contains(v)
                            &&& out@[q].last_modified == m[v].metadata.last_modified
                            &&& out@[q].size == m[v].metadata.content_length
                            &&& opt_view(out@[q].etag) == opt_view(m[v].metadata.etag)
                            &&& out@[q].deleted == m[v].deleted
                            &&& out@[q].is_latest == (self.latest().dom().contains(key@) && self.latest()[key@] == v)
                        },
                        forall|p: int| 0 <= p < i && version_id_error((#[trigger] versions@[p]).0@) is None
                            ==> exists|q: int| 0 <= q < out@.len() && (#[trigger] out@[q]).version_id@ == versions@[p].0@,
                    decreases versions@.len() - i,
                {
                    let name = &versions[i].0;
                    let stored = &versions[i].1;
                    proof {
                        lemma_keyed_map(versions@);
                        assert(m[versions@[i as int].0@] == versions@[i as int].1);
                    }
                    match VersionId::new(name.clone()) {
                        Ok(vid) => {
                            let is_latest = match latest_index {
                                Some(l) => crate::text::str_eq(self.latest_versions[l].1.as_str(), name.as_str()),
                                None => false,
                            };
                            let ghost before = out@;
                            proof {
                                assert forall|q: int| 0 <= q < before.len() implies (#[trigger] before[q]).version_id@ != vid@ by {
                                    let p = choose|p: int| 0 <= p < i && (#[trigger] versions@[p]).0@ == before[q].version_id@;
                                    assert(versions@[p].0@ != versions@[i as int].0@);
                                }
                            }
                            out.push(
                                ObjectVersionInfo {
                                    version_id: vid,
                                    last_modified: stored.metadata.last_modified,
                                    size: stored.metadata.content_length,
                                    etag: clone_opt_string(&stored.metadata.etag),
                                    is_latest,
                                    deleted: stored.deleted,
                                },
                            );
                            proof {
                                assert forall|q: int| #![trigger out@[q]] 0 <= q < out@.len() implies exists|p: int| 0 <= p < i + 1 && (#[trigger] versions@[p]).0@ == out@[q].version_id@ by {
                                    if q < before.len() {
                                        assert(out@[q] == before[q]);
                                        let p = choose|p: int| 0 <= p < i && (#[trigger] versions@[p]).0@ == before[q].version_id@;
                                        assert(0 <= p < i + 1 && versions@[p].0@ == out@[q].version_id@);
                                    } else {
                                        assert(versions@[i as int].0@ == out@[q].version_id@);
                                    }
                                }
                                assert forall|p: int| 0 <= p < i + 1 && version_id_error((#[trigger] versions@[p]).0@) is None
                                    implies exists|q: int| 0 <= q < out@.len() && (#[trigger] out@[q]).version_id@ == versions@[p].0@ by {
                                    if p < i {
                                        let q = choose|q: int| 0 <= q < before.len() && (#[trigger] before[q]).version_id@ == versions@[p].0@;
                                        assert(out@[q] == before[q]);
                                    } else {
                                        assert(out@[before.len() as int].version_id@ == versions@[p].0@);
                                    }
                                }
                            }
                        },
                        Err(_) => {
                            proof {
                                assert forall|p: int| 0 <= p < i + 1 && version_id_error((#[trigger] versions@[p]).0@) is None
                                    implies exists|q: int| 0 <= q < out@.len() && (#[trigger] out@[q]).version_id@ == versions@[p].0@ by {
                                    if p < i {
                                    } else {
                                        assert(version_id_error(versions@[i as int].0@) is Some);
                                    }
                                }
                                assert forall|q: int| #![trigger out@[q]] 0 <= q < out@.len() implies exists|p: int| 0 <= p < i + 1 && (#[trigger] versions@[p]).0@ == out@[q].version_id@ by {
                                    let p = choose|p: int| 0 <= p < i && (#[trigger] versions@[p]).0@ == out@[q].version_id@;
                                    assert(0 <= p < i + 1);
                                }
                            }
                        },
                    }
                    i = i + 1;
                }
                proof {
                    lemma_keyed_map(versions@);
                    assert forall|v: Seq<char>| #[trigger] m.dom().contains(v) && version_id_error(v) is None
                        implies exists|q: int| 0 <= q < out@.len() && (#[trigger] out@[q]).version_id@ == v by {
                        let p = choose|p: int| 0 <= p < versions@.len() && (#[trigger] versions@[p]).0@ == v;
                        assert(version_id_error(versions@[p].0@) is None);
                    }
                }
            },
            None => {},
        }
        Ok(ObjectVersionList { key: key.clone(), versions: out })
    }
}

} // verus!
