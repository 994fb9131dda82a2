use vstd::prelude::*;
use vstd::string::*;

use crate::bucket::{bucket_name_problem, s3_bucket_char};
use crate::dto::{opt_class_name, opt_class_named, status_name, status_named};
use crate::evaluation::{rule_actions, rules_actions, ObjectFacts};
use crate::lifecycle::{opt_class_view, storage_class_named, LifecycleRule, RuleStatus, StorageClassView};
use crate::memory_store::object_path;
use crate::object_repository::StoredVersion;
use crate::object_store_service::{handled, ObjectStoreService, StorageReply};
use crate::routing::{route_of, HttpMethod, RouteView};
use crate::store_lifecycle::{first_problem, same_rule_lists, LifecycleConfiguration};
use crate::tags::TagMap;
use crate::models::ObjectVersionInfo;
use crate::versioning_service::{newest_first, pruned_ids};
use crate::versioned_store::{
    put_outcome, version_deleted, version_location, without_version, VersionMetadataView,
    VersionedStore,
};
use crate::store_lifecycle::{first_id, without_rule};
use crate::text::{contains_seq, is_digit, is_lower, last_index_of, occurs_at, split_on};
use crate::value_objects::{bucket_edge_char, bucket_name_error, first_bad_bucket_char, lemma_last_index_in_bounds};

verus! {

/// Reading an object after writing it gives back the bytes written, and the other objects
/// are as they were: `put_object` inserts the bytes at the key's path, and `get_object`
/// reads the bytes at that path.
pub proof fn law_get_after_put(
    before: Map<Seq<char>, Seq<u8>>,
    after: Map<Seq<char>, Seq<u8>>,
    key: Seq<char>,
    data: Seq<u8>,
    other: Seq<char>,
)
    requires
        after == before.insert(object_path(key), data),
        object_path(other) != object_path(key),
    ensures
        after.dom().contains(object_path(key)),
        after[object_path(key)] == data,
        after.dom().contains(object_path(other)) == before.dom().contains(object_path(other)),
        before.dom().contains(object_path(other)) ==> after[object_path(other)] == before[object_path(other)],
{
}

/// After an object is deleted it no longer exists, and the other objects are as they were.
pub proof fn law_gone_after_delete(
    before: Map<Seq<char>, Seq<u8>>,
    after: Map<Seq<char>, Seq<u8>>,
    key: Seq<char>,
    other: Seq<char>,
)
    requires
        after == before.remove(object_path(key)),
        object_path(other) != object_path(key),
    ensures
        !after.dom().contains(object_path(key)),
        after.dom().contains(object_path(other)) == before.dom().contains(object_path(other)),
        before.dom().contains(object_path(other)) ==> after[object_path(other)] == before[object_path(other)],
{
}

/// The metadata saved for a version is what a read of the object's latest metadata gives
/// back: saving makes the version the latest, live one.
pub proof fn law_metadata_read_after_save(
    objects: Map<Seq<char>, Map<Seq<char>, StoredVersion>>,
    latest: Map<Seq<char>, Seq<char>>,
    key: Seq<char>,
    version: Seq<char>,
)
    requires
        latest.dom().contains(key) && latest[key] == version,
        objects.dom().contains(key) && objects[key].dom().contains(version),
        !objects[key][version].deleted,
    ensures
        ({
            let v = if latest.dom().contains(key) {
                Some(latest[key])
            } else {
                None
            };
            v == Some(version) && objects.dom().contains(key) && objects[key].dom().contains(v->0)
                && !objects[key][v->0].deleted
        }),
{
}

proof fn lemma_first_id_is(s: Seq<crate::store_lifecycle::LifecycleRule>, id: Seq<char>, k: int)
    requires
        0 <= k < s.len(),
        s[k].id@ == id,
        forall|j: int| 0 <= j < k ==> (#[trigger] s[j]).id@ != id,
    ensures
        first_id(s, id) == Some(k),
{
    let m = choose|m: int|
        0 <= m < s.len() && s[m].id@ == id && forall|j: int| 0 <= j < m ==> (#[trigger] s[j]).id@ != id;
    assert(m == k) by {
        if m < k {
            assert(s[m].id@ != id);
        } else if m > k {
            assert(s[k].id@ != id);
        }
    }
}

proof fn lemma_first_id_exists(s: Seq<crate::store_lifecycle::LifecycleRule>, id: Seq<char>, i: int)
    requires
        0 <= i < s.len(),
        s[i].id@ == id,
    ensures
        exists|k: int| 0 <= k < s.len() && s[k].id@ == id && forall|j: int| 0 <= j < k ==> (#[trigger] s[j]).id@ != id,
    decreases i,
{
    if exists|j: int| 0 <= j < i && s[j].id@ == id {
        let j = choose|j: int| 0 <= j < i && s[j].id@ == id;
        lemma_first_id_exists(s, id, j);
    } else {
        assert(forall|j: int| 0 <= j < i ==> (#[trigger] s[j]).id@ != id);
    }
}

/// After a rule is added to a storage lifecycle configuration, looking its id up finds it.
pub proof fn law_rule_found_after_add(rules: Seq<crate::store_lifecycle::LifecycleRule>, rule: crate::store_lifecycle::LifecycleRule)
    ensures
        ({
            let after = match first_id(rules, rule.id@) {
                Some(i) => rules.update(i, rule),
                None => rules.push(rule),
            };
            first_id(after, rule.id@) matches Some(j) && after[j] == rule
        }),
{
    let id = rule.id@;
    match first_id(rules, id) {
        Some(i) => {
            let w = choose|w: int| 0 <= w < rules.len() && rules[w].id@ == id;
            lemma_first_id_exists(rules, id, w);
            assert(0 <= i < rules.len() && rules[i].id@ == id && forall|j: int| 0 <= j < i ==> (#[trigger] rules[j]).id@ != id);
            let after = rules.update(i, rule);
            assert forall|j: int| 0 <= j < i implies (#[trigger] after[j]).id@ != id by {
                assert(after[j] == rules[j]);
            }
            lemma_first_id_is(after, id, i);
        },
        None => {
            let after = rules.push(rule);
            let n = rules.len() as int;
            assert forall|j: int| 0 <= j < n implies (#[trigger] after[j]).id@ != id by {
                assert(after[j] == rules[j]);
                if rules[j].id@ == id {
                    assert(exists|q: int| 0 <= q < rules.len() && rules[q].id@ == id);
                }
            }
            lemma_first_id_is(after, id, n);
        },
    }
}

/// After the rules with an id are removed, no rule with that id is left, and every other
/// rule is kept, in order.
pub proof fn law_rule_gone_after_remove(rules: Seq<crate::store_lifecycle::LifecycleRule>, id: Seq<char>)
    ensures
        first_id(without_rule(rules, id), id) is None,
        forall|i: int| 0 <= i < without_rule(rules, id).len() ==> (#[trigger] without_rule(rules, id)[i]).id@ != id,
        forall|i: int| 0 <= i < rules.len() && (#[trigger] rules[i]).id@ != id ==> without_rule(rules, id).contains(rules[i]),
    decreases rules.len(),
{
    if rules.len() > 0 {
        let init = rules.drop_last();
        law_rule_gone_after_remove(init, id);
        let w = without_rule(rules, id);
        let wi = without_rule(init, id);
        assert forall|i: int| 0 <= i < w.len() implies (#[trigger] w[i]).id@ != id by {
            if rules.last().id@ != id && i == wi.len() {
                assert(w[i] == rules.last());
            } else {
                assert(w[i] == wi[i]);
            }
        }
        assert forall|i: int| 0 <= i < rules.len() && (#[trigger] rules[i]).id@ != id implies w.contains(rules[i]) by {
            if i < init.len() {
                assert(rules[i] == init[i]);
                assert(wi.contains(init[i]));
                let q = choose|q: int| 0 <= q < wi.len() && wi[q] == init[i];
                if rules.last().id@ != id {
                    assert(w[q] == wi[q]);
                }
            } else {
                assert(w[wi.len() as int] == rules.last());
            }
        }
    }
    let w = without_rule(rules, id);
    if exists|i: int| 0 <= i < w.len() && w[i].id@ == id {
        let i = choose|i: int| 0 <= i < w.len() && w[i].id@ == id;
        assert(w[i].id@ != id);
    }
}

/// A disabled rule calls for no action, whatever the object and the time.
pub proof fn law_disabled_rule_is_silent(rule: LifecycleRule, f: ObjectFacts, now: int)
    requires
        rule.status == RuleStatus::Disabled,
    ensures
        rule_actions(rule, f, now) == Seq::<crate::evaluation::ActionModel>::empty(),
{
}

/// Without rules, evaluation calls for no action.
pub proof fn law_no_rules_no_actions(f: ObjectFacts, now: int)
    ensures
        rules_actions(Seq::<LifecycleRule>::empty(), f, now) == Seq::<crate::evaluation::ActionModel>::empty(),
{
}

/// A valid bucket name of the domain is also accepted by the S3 naming check of the bucket
/// client, whose rules are looser.
pub proof fn law_domain_bucket_names_are_s3_names(s: Seq<char>)
    requires
        bucket_name_error(s) is None,
    ensures
        bucket_name_problem(s) is None,
{
    assert(s.len() > 0);
    assert forall|i: int| 0 <= i < s.len() implies s3_bucket_char(#[trigger] s[i]) by {
        lemma_no_bad_bucket_char(s, i);
    }
}

proof fn lemma_no_bad_bucket_char(s: Seq<char>, i: int)
    requires
        first_bad_bucket_char(s) is None,
        0 <= i < s.len(),
    ensures
        crate::value_objects::bucket_char(s[i]),
    decreases s.len(),
{
    if i < s.len() - 1 {
        let t = s.drop_last();
        assert(first_bad_bucket_char(t) is None);
        lemma_no_bad_bucket_char(t, i);
        assert(t[i] == s[i]);
    }
}

/// A key with a `/` is its parent, a `/`, and its file name.
pub proof fn law_key_is_parent_and_file_name(key: Seq<char>)
    requires
        last_index_of(key, '/') is Some,
    ensures
        ({
            let i = last_index_of(key, '/')->0;
            key.take(i) + seq!['/'] + key.subrange(i + 1, key.len() as int) == key
        }),
{
    lemma_last_index_in_bounds(key, '/');
    let i = last_index_of(key, '/')->0;
    assert(key.take(i) + seq!['/'] + key.subrange(i + 1, key.len() as int) =~= key);
}

/// A rule's status survives its description: naming a status and reading the name back
/// gives the status.
pub proof fn law_status_name_roundtrip(s: RuleStatus)
    ensures
        status_named(status_name(s)) == Some(s),
{
    reveal_strlit("Enabled");
    reveal_strlit("Disabled");
    assert("Enabled"@.len() != "Disabled"@.len());
}

/// A storage class survives its description, unless it is a custom class whose name is one
/// of the standard names.
pub proof fn law_class_name_roundtrip(c: Option<crate::lifecycle::StorageClass>)
    requires
        c matches Some(x) ==> (x@ matches StorageClassView::Custom(n) ==> storage_class_named(n) == x@),
    ensures
        opt_class_named_view(opt_class_name(c)) == opt_class_view(c),
{
    if let Some(x) = c {
        crate::lifecycle::lemma_storage_class_name_roundtrip(x@);
    }
}

/// The storage class named by an optional name, as a view.
pub open spec fn opt_class_named_view(n: Option<Seq<char>>) -> Option<StorageClassView> {
    match n {
        Some(x) => Some(storage_class_named(x)),
        None => None,
    }
}


/// Nothing that carries the id is left after removing a version.
proof fn lemma_without_version_excludes(s: Seq<VersionMetadataView>, id: Seq<char>)
    ensures
        forall|j: int|
            0 <= j < without_version(s, id).len() ==> (#[trigger] without_version(s, id)[j]).version_id
                != id,
    decreases s.len(),
{
    if s.len() > 0 {
        lemma_without_version_excludes(s.drop_last(), id);
        let rest = without_version(s.drop_last(), id);
        assert forall|j: int| 0 <= j < without_version(s, id).len() implies (#[trigger] without_version(
            s,
            id,
        )[j]).version_id != id by {
            if j < rest.len() {
                assert(without_version(s, id)[j] == rest[j]);
            }
        }
    }
}

/// With versioning on, a put records exactly one new version of the object, the newest, and
/// both the object and that version read back as the bytes put.
pub proof fn law_put_makes_readable_version(
    before: VersionedStore,
    after: VersionedStore,
    path: Seq<char>,
    data: Seq<u8>,
)
    requires
        before.is_versioning(),
        put_outcome(before, after, path, data),
    ensures
        after.versions_of(object_path(path)).len() == before.versions_of(object_path(path)).len() + 1,
        after.versions_of(object_path(path)).drop_last() == before.versions_of(object_path(path)),
        after.versions_of(object_path(path)).last().size == data.len(),
        after.contents().dom().contains(object_path(path)),
        after.contents()[object_path(path)] == data,
        after.contents().dom().contains(
            version_location(path, after.versions_of(object_path(path)).last().version_id),
        ),
        after.contents()[version_location(
            path,
            after.versions_of(object_path(path)).last().version_id,
        )] == data,
{
    let (id, created) = choose|id: Seq<char>, created: crate::time::UtcTime|
        crate::versioned_store::versioned_put(before, after, path, data, id, created);
    let list = after.versions_of(object_path(path));
    assert(list == before.versions_of(object_path(path)).push(
        crate::versioned_store::new_version(id, created, data.len() as usize),
    ));
    assert(list.drop_last() =~= before.versions_of(object_path(path)));
}

/// After a version is removed, its bytes are gone and no recorded version of the object
/// carries its id.
pub proof fn law_deleted_version_is_gone(
    before: VersionedStore,
    after: VersionedStore,
    path: Seq<char>,
    id: Seq<char>,
)
    requires
        version_deleted(before, after, path, id),
    ensures
        !after.contents().dom().contains(version_location(path, id)),
        forall|j: int|
            0 <= j < after.versions_of(object_path(path)).len() ==> (#[trigger] after.versions_of(
                object_path(path),
            )[j]).version_id != id,
{
    lemma_without_version_excludes(before.versions_of(object_path(path)), id);
}

/// Through the storage routes, reading an object after storing it gives back the bytes
/// stored, whatever buckets the two paths name: objects are addressed by key alone.
pub proof fn law_storage_read_after_write(
    s0: ObjectStoreService,
    s1: ObjectStoreService,
    s2: ObjectStoreService,
    put_route: RouteView,
    get_route: RouteView,
    body: Seq<u8>,
    metadata: Option<TagMap>,
    lifecycle: Option<LifecycleConfiguration>,
    get_body: Seq<u8>,
    get_metadata: Option<TagMap>,
    get_lifecycle: Option<LifecycleConfiguration>,
    r1: StorageReply,
    r2: StorageReply,
)
    requires
        put_route matches RouteView::PutObject { key: k1, .. },
        get_route matches RouteView::GetObject { key: k2, .. },
        put_route->PutObject_key == get_route->GetObject_key,
        handled(s0, s1, put_route, body, metadata, lifecycle, r1),
        handled(s1, s2, get_route, get_body, get_metadata, get_lifecycle, r2),
    ensures
        r2 matches StorageReply::Data(d) && d@ == body,
        r1 is Created,
{
    let key = put_route->PutObject_key;
    if s0.store.is_versioning() {
        let (id, created) = choose|id: Seq<char>, created: crate::time::UtcTime|
            crate::versioned_store::versioned_put(s0.store, s1.store, key, body, id, created);
        assert(s1.store.contents().dom().contains(object_path(key)));
    }
}

/// Pruning down to `keep` versions deletes all but the `keep` newest: as many versions as
/// there are beyond `keep`, none of them newer than a version kept.
pub proof fn law_prune_keeps_the_newest(sorted: Seq<ObjectVersionInfo>, keep: usize)
    requires
        newest_first(sorted),
    ensures
        pruned_ids(sorted, keep).len() == if sorted.len() > keep {
            sorted.len() - keep
        } else {
            0
        },
        forall|i: int, j: int|
            0 <= i < keep && keep <= j < sorted.len() ==> (#[trigger] sorted[i]).last_modified@
                >= (#[trigger] sorted[j]).last_modified@,
        forall|t: int|
            0 <= t < pruned_ids(sorted, keep).len() ==> #[trigger] pruned_ids(sorted, keep)[t]
                == sorted[keep + t].version_id@,
{
}

/// Through the storage routes, a lifecycle configuration that was accepted for a bucket is
/// what a later read of the bucket's configuration answers.
pub proof fn law_storage_lifecycle_read_after_write(
    s0: ObjectStoreService,
    s1: ObjectStoreService,
    s2: ObjectStoreService,
    bucket: Seq<char>,
    body: Seq<u8>,
    metadata: Option<TagMap>,
    config: LifecycleConfiguration,
    get_body: Seq<u8>,
    get_metadata: Option<TagMap>,
    get_lifecycle: Option<LifecycleConfiguration>,
    r1: StorageReply,
    r2: StorageReply,
)
    requires
        handled(s0, s1, RouteView::PutLifecycle { bucket }, body, metadata, Some(config), r1),
        handled(s1, s2, RouteView::GetLifecycle { bucket }, get_body, get_metadata, get_lifecycle, r2),
        r1 == StorageReply::Status(200),
    ensures
        first_problem(config.rules@) is None,
        r2 matches StorageReply::Lifecycle(c) && same_rule_lists(c.rules@, config.rules@),
{
}

/// The storage routes address objects by key alone: the bucket named in the path changes
/// nothing of what a read answers.
pub proof fn law_storage_bucket_is_not_in_the_path(
    s0: ObjectStoreService,
    s1: ObjectStoreService,
    s2: ObjectStoreService,
    b1: Seq<char>,
    b2: Seq<char>,
    key: Seq<char>,
    body: Seq<u8>,
    metadata: Option<TagMap>,
    lifecycle: Option<LifecycleConfiguration>,
    r1: StorageReply,
    r2: StorageReply,
)
    requires
        handled(s0, s1, RouteView::GetObject { bucket: b1, key }, body, metadata, lifecycle, r1),
        handled(s0, s2, RouteView::GetObject { bucket: b2, key }, body, metadata, lifecycle, r2),
    ensures
        s1 == s2,
        r1 matches StorageReply::Data(d1) ==> (r2 matches StorageReply::Data(d2) && d1@ == d2@),
        r1 == StorageReply::Status(404) <==> r2 == StorageReply::Status(404),
{
}

/// With versioning on, a run of puts at one path records one version per put, after the
/// versions already there and in the order of the puts, each of the size of its bytes.
pub proof fn law_puts_record_a_version_each(
    states: Seq<VersionedStore>,
    path: Seq<char>,
    datas: Seq<Seq<u8>>,
)
    requires
        states.len() == datas.len() + 1,
        forall|i: int| 0 <= i < datas.len() ==> (#[trigger] states[i]).is_versioning() && put_outcome(
            states[i],
            states[i + 1],
            path,
            datas[i],
        ),
    ensures
        ({
            let first = states[0].versions_of(object_path(path));
            let last = states[datas.len() as int].versions_of(object_path(path));
            &&& last.len() == first.len() + datas.len()
            &&& last.take(first.len() as int) == first
            &&& forall|i: int| 0 <= i < datas.len() ==> (#[trigger] last[first.len() + i]).size == datas[i].len()
        }),
    decreases datas.len(),
{
    let n = datas.len() as int;
    if n > 0 {
        let ps = states.take(n);
        let pd = datas.take(n - 1);
        assert forall|i: int| 0 <= i < pd.len() implies (#[trigger] ps[i]).is_versioning() && put_outcome(
            ps[i],
            ps[i + 1],
            path,
            pd[i],
        ) by {
            assert(ps[i] == states[i]);
            assert(ps[i + 1] == states[i + 1]);
            assert(pd[i] == datas[i]);
        }
        law_puts_record_a_version_each(ps, path, pd);
        assert(ps[0] == states[0]);
        assert(ps[n - 1] == states[n - 1]);
        assert(states[n - 1].is_versioning() && put_outcome(states[n - 1], states[n], path, datas[n - 1]));
        law_put_makes_readable_version(states[n - 1], states[n], path, datas[n - 1]);
        let first = states[0].versions_of(object_path(path));
        let mid = states[n - 1].versions_of(object_path(path));
        let last = states[n].versions_of(object_path(path));
        assert(last.drop_last() == mid);
        assert(last.take(first.len() as int) =~= first) by {
            assert forall|k: int| 0 <= k < first.len() implies last[k] == first[k] by {
                assert(last[k] == mid[k]);
                assert(mid.take(first.len() as int)[k] == mid[k]);
            }
        }
        assert forall|i: int| 0 <= i < n implies (#[trigger] last[first.len() + i]).size == datas[i].len() by {
            if i < n - 1 {
                assert(last[first.len() + i] == mid[first.len() + i]);
                assert(pd[i] == datas[i]);
            }
        }
    }
}

/// With versioning on, after a run of puts at one path each version recorded by the run
/// reads back as the bytes of its put, provided the versions' locations differ from each
/// other and from the object's own path (as they do when the drawn ids are distinct).
pub proof fn law_puts_keep_every_version_readable(
    states: Seq<VersionedStore>,
    path: Seq<char>,
    datas: Seq<Seq<u8>>,
)
    requires
        states.len() == datas.len() + 1,
        forall|i: int| 0 <= i < datas.len() ==> (#[trigger] states[i]).is_versioning() && put_outcome(
            states[i],
            states[i + 1],
            path,
            datas[i],
        ),
        ({
            let base = states[0].versions_of(object_path(path)).len();
            let last = states[datas.len() as int].versions_of(object_path(path));
            &&& forall|i: int, j: int|
                0 <= i < j < datas.len() ==> version_location(path, #[trigger] last[base + i].version_id)
                    != version_location(path, #[trigger] last[base + j].version_id)
            &&& forall|i: int|
                0 <= i < datas.len() ==> version_location(path, #[trigger] last[base + i].version_id)
                    != object_path(path)
        }),
    ensures
        ({
            let base = states[0].versions_of(object_path(path)).len();
            let last = states[datas.len() as int];
            forall|i: int|
                0 <= i < datas.len() ==> last.contents().dom().contains(
                    version_location(path, #[trigger] last.versions_of(object_path(path))[base + i].version_id),
                ) && last.contents()[version_location(
                    path,
                    last.versions_of(object_path(path))[base + i].version_id,
                )] == datas[i]
        }),
    decreases datas.len(),
{
    let n = datas.len() as int;
    law_puts_record_a_version_each(states, path, datas);
    if n > 0 {
        let ps = states.take(n);
        let pd = datas.take(n - 1);
        assert forall|i: int| 0 <= i < pd.len() implies (#[trigger] ps[i]).is_versioning() && put_outcome(
            ps[i],
            ps[i + 1],
            path,
            pd[i],
        ) by {
            assert(ps[i] == states[i]);
            assert(ps[i + 1] == states[i + 1]);
            assert(pd[i] == datas[i]);
        }
        assert(ps[0] == states[0]);
        assert(ps[n - 1] == states[n - 1]);
        law_puts_record_a_version_each(ps, path, pd);
        assert(states[n - 1].is_versioning() && put_outcome(states[n - 1], states[n], path, datas[n - 1]));
        law_put_makes_readable_version(states[n - 1], states[n], path, datas[n - 1]);
        let base = states[0].versions_of(object_path(path)).len();
        let mid = states[n - 1].versions_of(object_path(path));
        let last = states[n].versions_of(object_path(path));
        assert(last.drop_last() == mid);
        assert forall|i: int, j: int| 0 <= i < j < pd.len() implies version_location(
            path,
            #[trigger] mid[base + i].version_id,
        ) != version_location(path, #[trigger] mid[base + j].version_id) by {
            assert(mid[base + i] == last[base + i]);
            assert(mid[base + j] == last[base + j]);
        }
        assert forall|i: int| 0 <= i < pd.len() implies version_location(
            path,
            #[trigger] mid[base + i].version_id,
        ) != object_path(path) by {
            assert(mid[base + i] == last[base + i]);
        }
        law_puts_keep_every_version_readable(ps, path, pd);
        let (id, created) = choose|id: Seq<char>, created: crate::time::UtcTime|
            #[trigger] crate::versioned_store::versioned_put(states[n - 1], states[n], path, datas[n - 1], id, created);
        assert(last.last().version_id == id);
        assert(last[base + n - 1] == last.last());
        assert forall|i: int| 0 <= i < n implies states[n].contents().dom().contains(
            version_location(path, #[trigger] last[base + i].version_id),
        ) && states[n].contents()[version_location(path, last[base + i].version_id)] == datas[i] by {
            if i < n - 1 {
                assert(last[base + i] == mid[base + i]);
                assert(pd[i] == datas[i]);
                assert(version_location(path, last[base + i].version_id) != version_location(
                    path,
                    last[base + n - 1].version_id,
                ));
            }
        }
    }
}

/// A `POST` is routed as a `PUT` is, wherever the path does not address a lifecycle
/// configuration: in particular a `POST` on `bucket/key` stores the object as a `PUT` does.
pub proof fn law_post_routes_like_put(path: Seq<char>)
    ensures
        !contains_seq(path, "/lifecycle"@) ==> route_of(HttpMethod::Post, path) == route_of(HttpMethod::Put, path),
        route_of(HttpMethod::Put, path) is PutObject ==> route_of(HttpMethod::Post, path) == route_of(
            HttpMethod::Put,
            path,
        ),
{
}

proof fn lemma_split_plain(s: Seq<char>, d: char)
    requires
        !s.contains(d),
    ensures
        split_on(s, d) == seq![s],
    decreases s.len(),
{
    if s.len() > 0 {
        assert(!s.drop_last().contains(d)) by {
            if s.drop_last().contains(d) {
                let i = choose|i: int| 0 <= i < s.drop_last().len() && s.drop_last()[i] == d;
                assert(s[i] == d);
            }
        }
        lemma_split_plain(s.drop_last(), d);
        assert(s.last() != d) by {
            assert(s[s.len() - 1] == s.last());
        }
        assert(s.drop_last().push(s.last()) =~= s);
        assert(seq![s.drop_last()].update(0, s.drop_last().push(s.last())) =~= seq![s]);
    } else {
        assert(s =~= Seq::<char>::empty());
    }
}

proof fn lemma_split_two(b: Seq<char>, k: Seq<char>, d: char)
    requires
        !b.contains(d),
        !k.contains(d),
    ensures
        split_on(b + seq![d] + k, d) == seq![b, k],
    decreases k.len(),
{
    if k.len() == 0 {
        assert(k =~= Seq::<char>::empty());
        assert(b + seq![d] + k =~= b.push(d));
        assert((b + seq![d] + k).drop_last() =~= b);
        lemma_split_plain(b, d);
        assert(seq![b].push(Seq::<char>::empty()) =~= seq![b, k]);
    } else {
        let front = k.drop_last();
        assert(!front.contains(d)) by {
            if front.contains(d) {
                let i = choose|i: int| 0 <= i < front.len() && front[i] == d;
                assert(k[i] == d);
            }
        }
        lemma_split_two(b, front, d);
        let s = b + seq![d] + k;
        assert(s.drop_last() =~= b + seq![d] + front);
        assert(s.last() == k.last());
        assert(k.last() != d) by {
            assert(k[k.len() - 1] == k.last());
        }
        assert(front.push(k.last()) =~= k);
        assert(seq![b, front].update(1, front.push(k.last())) =~= seq![b, k]);
    }
}

/// A request on `/storage/{bucket}/{key}`, with a bucket and a key that hold no `/` and a
/// path that names no versions or lifecycle configuration, reads (`GET`), stores (`PUT` and
/// `POST`) or deletes (`DELETE`) that object of that bucket.
#[verifier::spinoff_prover]
#[verifier::rlimit(40)]
pub proof fn law_object_requests_route_by_method(bucket: Seq<char>, key: Seq<char>)
    requires
        !bucket.contains('/'),
        !key.contains('/'),
        !contains_seq("/storage/"@ + bucket + "/"@ + key, "/versions"@),
        !contains_seq("/storage/"@ + bucket + "/"@ + key, "/version/"@),
        !contains_seq("/storage/"@ + bucket + "/"@ + key, "/lifecycle"@),
    ensures
        ({
            let path = "/storage/"@ + bucket + "/"@ + key;
            &&& route_of(HttpMethod::Get, path) == RouteView::GetObject { bucket, key }
            &&& route_of(HttpMethod::Put, path) == RouteView::PutObject { bucket, key }
            &&& route_of(HttpMethod::Post, path) == RouteView::PutObject { bucket, key }
            &&& route_of(HttpMethod::Delete, path) == RouteView::DeleteObject { bucket, key }
        }),
{
    reveal_strlit("/storage/");
    reveal_strlit("/");
    let root = "/storage/"@;
    let path = root + bucket + "/"@ + key;
    assert(path.subrange(0, root.len() as int) =~= root);
    assert(path.subrange(root.len() as int, path.len() as int) =~= bucket + seq!['/'] + key);
    lemma_split_two(bucket, key, '/');
}

proof fn lemma_split_append(p: Seq<char>, y: Seq<char>, d: char)
    requires
        !y.contains(d),
    ensures
        split_on(p + seq![d] + y, d) == split_on(p, d).push(y),
    decreases y.len(),
{
    if y.len() == 0 {
        assert(y =~= Seq::<char>::empty());
        assert(p + seq![d] + y =~= p.push(d));
        assert((p + seq![d] + y).drop_last() =~= p);
    } else {
        let front = y.drop_last();
        assert(!front.contains(d)) by {
            if front.contains(d) {
                let i = choose|i: int| 0 <= i < front.len() && front[i] == d;
                assert(y[i] == d);
            }
        }
        lemma_split_append(p, front, d);
        let s = p + seq![d] + y;
        assert(s.drop_last() =~= p + seq![d] + front);
        assert(s.last() == y.last());
        assert(y.last() != d) by {
            assert(y[y.len() - 1] == y.last());
        }
        assert(front.push(y.last()) =~= y);
        let base = split_on(p, d);
        assert(base.push(front).update(base.len() as int, front.push(y.last())) =~= base.push(y));
    }
}

/// `GET /storage/{b}/versions/{k}` lists the versions of object `k` of bucket `b`, the
/// bucket and key holding no `/`.
#[verifier::spinoff_prover]
#[verifier::rlimit(40)]
pub proof fn law_version_listing_routes_by_shape(b: Seq<char>, k: Seq<char>)
    requires
        !b.contains('/'),
        !k.contains('/'),
    ensures
        route_of(HttpMethod::Get, "/storage/"@ + b + "/versions/"@ + k) == (RouteView::ListVersions { bucket: b, key: k }),
{
    reveal_strlit("/storage/");
    reveal_strlit("/versions/");
    reveal_strlit("/versions");
    reveal_strlit("versions");
    let root = "/storage/"@;
    let n = root.len() as int;
    let p1 = root + b + "/versions/"@ + k;
    assert(p1.subrange(0, n) =~= root);
    let versions = "versions"@;
    assert(!versions.contains('/'));
    assert(p1.subrange(n, p1.len() as int) =~= b + seq!['/'] + versions + seq!['/'] + k);
    lemma_split_plain(b, '/');
    lemma_split_append(b, versions, '/');
    lemma_split_append(b + seq!['/'] + versions, k, '/');
    assert(occurs_at(p1, "/versions"@, n + b.len())) by {
        assert(p1.subrange(n + b.len(), n + b.len() + 9) =~= "/versions"@);
    }
    assert(seq![b].push(versions).push(k) =~= seq![b, versions, k]);
}

/// `DELETE` on `/storage/{b}/version/{k}/{v}` deletes version `v` of object `k` of bucket
/// `b`, and `GET` on it reads that version unless the path also reads as a version listing
/// (it holds `/versions`). Bucket, key and version hold no `/`.
#[verifier::spinoff_prover]
#[verifier::rlimit(40)]
pub proof fn law_version_requests_route_by_shape(b: Seq<char>, k: Seq<char>, v: Seq<char>)
    requires
        !b.contains('/'),
        !k.contains('/'),
        !v.contains('/'),
    ensures
        route_of(HttpMethod::Delete, "/storage/"@ + b + "/version/"@ + k + "/"@ + v) == (
        RouteView::DeleteVersion { bucket: b, key: k, version: v }),
        !contains_seq("/storage/"@ + b + "/version/"@ + k + "/"@ + v, "/versions"@) ==> route_of(
            HttpMethod::Get,
            "/storage/"@ + b + "/version/"@ + k + "/"@ + v,
        ) == (RouteView::GetVersion { bucket: b, key: k, version: v }),
{
    reveal_strlit("/storage/");
    reveal_strlit("/version/");
    reveal_strlit("/");
    reveal_strlit("version");
    let root = "/storage/"@;
    let n = root.len() as int;
    let p2 = root + b + "/version/"@ + k + "/"@ + v;
    let version = "version"@;
    assert(!version.contains('/'));
    assert(p2.subrange(0, n) =~= root);
    assert(p2.subrange(n, p2.len() as int) =~= b + seq!['/'] + version + seq!['/'] + k + seq!['/'] + v);
    lemma_split_plain(b, '/');
    lemma_split_append(b, version, '/');
    lemma_split_append(b + seq!['/'] + version, k, '/');
    lemma_split_append(b + seq!['/'] + version + seq!['/'] + k, v, '/');
    assert(occurs_at(p2, "/version/"@, n + b.len())) by {
        assert(p2.subrange(n + b.len(), n + b.len() + 9) =~= "/version/"@);
    }
    assert(seq![b].push(version).push(k).push(v) =~= seq![b, version, k, v]);
}

/// `GET` and `PUT` on `/storage/{b}/lifecycle` read and set the lifecycle configuration of
/// bucket `b`, the bucket holding no `/`; a `GET` does so unless the path also reads as a
/// version request (it holds `/versions` or `/version/`).
#[verifier::spinoff_prover]
#[verifier::rlimit(40)]
pub proof fn law_lifecycle_requests_route_by_shape(b: Seq<char>)
    requires
        !b.contains('/'),
    ensures
        route_of(HttpMethod::Put, "/storage/"@ + b + "/lifecycle"@) == (RouteView::PutLifecycle { bucket: b }),
        !contains_seq("/storage/"@ + b + "/lifecycle"@, "/versions"@) && !contains_seq(
            "/storage/"@ + b + "/lifecycle"@,
            "/version/"@,
        ) ==> route_of(HttpMethod::Get, "/storage/"@ + b + "/lifecycle"@) == (RouteView::GetLifecycle {
            bucket: b,
        }),
{
    reveal_strlit("/storage/");
    reveal_strlit("/lifecycle");
    reveal_strlit("lifecycle");
    let root = "/storage/"@;
    let n = root.len() as int;
    let p3 = root + b + "/lifecycle"@;
    let lifecycle = "lifecycle"@;
    assert(!lifecycle.contains('/'));
    assert(p3.subrange(0, n) =~= root);
    assert(p3.subrange(n, p3.len() as int) =~= b + seq!['/'] + lifecycle);
    lemma_split_plain(b, '/');
    lemma_split_append(b, lifecycle, '/');
    assert(occurs_at(p3, "/lifecycle"@, n + b.len())) by {
        assert(p3.subrange(n + b.len(), n + b.len() + 10) =~= "/lifecycle"@);
    }
    assert(seq![b].push(lifecycle) =~= seq![b, lifecycle]);
}
} // verus!
