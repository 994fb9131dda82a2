use vstd::prelude::*;

use crate::minio::{
    ostr, rule_model, rule_models, MinioFilter, MinioLifecycleConfig, MinioLifecycleRule,
    MinioRuleModel,
};
use crate::models::clone_opt_string;
use crate::store_lifecycle::{
    first_id, ExpirationConfig, LifecycleConfiguration, LifecycleRule, RuleStatus,
    TransitionConfig,
};

verus! {

/// A count narrowed to `u32`, as `as` narrows it.
pub open spec fn narrow(d: Option<usize>) -> Option<u32> {
    match d {
        Some(n) => Some(n as u32),
        None => None,
    }
}

/// A count widened to `usize`.
pub open spec fn widen(d: Option<u32>) -> Option<usize> {
    match d {
        Some(n) => Some(n as usize),
        None => None,
    }
}

/// The text, or the empty text when there is none.
pub open spec fn or_empty(s: Option<Seq<char>>) -> Seq<char> {
    match s {
        Some(x) => x,
        None => Seq::empty(),
    }
}

/// The storage rule `s` is what the MinIO rule `m` converts to: same id and status, the
/// filter's prefix (empty when absent), an expiration when any expiration setting is given,
/// a single transition when any transition setting is given, and no tags.
pub open spec fn converts_to(m: MinioRuleModel, s: LifecycleRule) -> bool {
    &&& s.id@ == m.id
    &&& s.prefix@ == or_empty(m.prefix)
    &&& s.status == (if m.status {
        RuleStatus::Enabled
    } else {
        RuleStatus::Disabled
    })
    &&& s.expiration == (if m.expiration_days is Some || m.expiration_date is Some
        || m.expired_object_delete_marker is Some {
        Some(
            ExpirationConfig {
                days: narrow(m.expiration_days),
                date: m.expiration_date,
                expired_object_delete_marker: m.expired_object_delete_marker,
            },
        )
    } else {
        None
    })
    &&& if m.transition_days is Some || m.transition_date is Some
        || m.transition_storage_class is Some {
        s.transitions matches Some(v) && v@.len() == 1 && v@[0].days == narrow(m.transition_days)
            && v@[0].date == m.transition_date && v@[0].storage_class@ == or_empty(
            m.transition_storage_class,
        )
    } else {
        s.transitions is None
    }
    &&& s.filter_tags is None
}

/// The ids of storage rules, in order.
pub open spec fn store_ids(rules: Seq<LifecycleRule>) -> Seq<Seq<char>> {
    rules.map_values(|r: LifecycleRule| r.id@)
}

/// The ids in the order of their first occurrence, each once.
pub open spec fn ids_in_first_order(ids: Seq<Seq<char>>) -> Seq<Seq<char>>
    decreases ids.len(),
{
    if ids.len() == 0 {
        Seq::empty()
    } else {
        let before = ids_in_first_order(ids.drop_last());
        if before.contains(ids.last()) {
            before
        } else {
            before.push(ids.last())
        }
    }
}

/// The ids of MinIO rules, in order.
pub open spec fn minio_ids(models: Seq<MinioRuleModel>) -> Seq<Seq<char>> {
    models.map_values(|m: MinioRuleModel| m.id)
}

/// Rule `j` is the last of the first `n` rules with its id.
pub open spec fn last_with_its_id(models: Seq<MinioRuleModel>, n: int, j: int) -> bool {
    0 <= j < n && forall|k: int| j < k < n ==> (#[trigger] models[k]).id != models[j].id
}

/// No two rules share an id.
pub open spec fn distinct_ids(rules: Seq<LifecycleRule>) -> bool {
    forall|a: int, b: int| 0 <= a < b < rules.len() ==> (#[trigger] rules[a]).id@ != (#[trigger] rules[b]).id@
}

/// Each rule is converted from the last of the first `n` MinIO rules with its id.
pub open spec fn from_last_sources(models: Seq<MinioRuleModel>, n: int, rules: Seq<LifecycleRule>) -> bool {
    forall|k: int|
        #![trigger rules[k]]
        0 <= k < rules.len() ==> exists|j: int|
            #[trigger] last_with_its_id(models, n, j) && converts_to(models[j], rules[k])
}

proof fn lemma_upsert_step(
    models: Seq<MinioRuleModel>,
    i: int,
    before: Seq<LifecycleRule>,
    after: Seq<LifecycleRule>,
    s: LifecycleRule,
)
    requires
        0 <= i < models.len(),
        converts_to(models[i], s),
        store_ids(before) == ids_in_first_order(minio_ids(models).take(i)),
        distinct_ids(before),
        from_last_sources(models, i, before),
        match first_id(before, s.id@) {
            Some(p) => after == before.update(p, s),
            None => after == before.push(s),
        },
    ensures
        store_ids(after) == ids_in_first_order(minio_ids(models).take(i + 1)),
        distinct_ids(after),
        from_last_sources(models, i + 1, after),
{
    let id = s.id@;
    assert(minio_ids(models).take(i + 1).drop_last() =~= minio_ids(models).take(i));
    assert(minio_ids(models).take(i + 1).last() == id);
    match first_id(before, id) {
        Some(p) => {
            assert(0 <= p < before.len() && before[p].id@ == id);
            assert(store_ids(before)[p] == id);
            assert(store_ids(before).contains(id));
            assert(store_ids(after) =~= store_ids(before));
            assert forall|k: int| #![trigger after[k]] 0 <= k < after.len() implies exists|j: int|
                #[trigger] last_with_its_id(models, i + 1, j) && converts_to(models[j], after[k]) by {
                if k == p {
                    assert(last_with_its_id(models, i + 1, i));
                } else {
                    assert(after[k] == before[k]);
                    let j = choose|j: int| #[trigger] last_with_its_id(models, i, j)
                        && converts_to(models[j], before[k]);
                    assert(before[k].id@ != before[p].id@);
                    assert(last_with_its_id(models, i + 1, j));
                }
            }
            assert(from_last_sources(models, i + 1, after));
            assert forall|a: int, b: int| 0 <= a < b < after.len() implies (
            #[trigger] after[a]).id@ != (#[trigger] after[b]).id@ by {
                assert(store_ids(after)[a] == after[a].id@);
                assert(store_ids(after)[b] == after[b].id@);
                assert(store_ids(before)[a] == before[a].id@);
                assert(store_ids(before)[b] == before[b].id@);
            }
        },
        None => {
            assert(!store_ids(before).contains(id)) by {
                if store_ids(before).contains(id) {
                    let q = choose|q: int| 0 <= q < store_ids(before).len() && store_ids(before)[q] == id;
                    assert(before[q].id@ == id);
                }
            }
            assert(store_ids(after) =~= store_ids(before).push(id));
            assert forall|k: int| #![trigger after[k]] 0 <= k < after.len() implies exists|j: int|
                #[trigger] last_with_its_id(models, i + 1, j) && converts_to(models[j], after[k]) by {
                if k == before.len() {
                    assert(after[k] == s);
                    assert(last_with_its_id(models, i + 1, i) && converts_to(models[i], after[k]));
                } else {
                    assert(after[k] == before[k]);
                    let j = choose|j: int| #[trigger] last_with_its_id(models, i, j)
                        && converts_to(models[j], before[k]);
                    assert(store_ids(before)[k] == before[k].id@);
                    assert(last_with_its_id(models, i + 1, j));
                }
            }
            assert(from_last_sources(models, i + 1, after));
            assert forall|a: int, b: int| 0 <= a < b < after.len() implies (
            #[trigger] after[a]).id@ != (#[trigger] after[b]).id@ by {
                if b == before.len() {
                    assert(store_ids(before)[a] == before[a].id@);
                } else {
                    assert(after[a] == before[a] && after[b] == before[b]);
                }
            }
        },
    }
}

fn convert_rule(m: &MinioLifecycleRule) -> (r: LifecycleRule)
    ensures
        converts_to(rule_model(*m), r),
{
    let prefix = match &m.filter.prefix {
        Some(p) => p.clone(),
        None => String::new(),
    };
    let expiration = if m.expiration_days.is_some() || m.expiration_date.is_some()
        || m.expiration_expired_object_delete_marker.is_some() {
        Some(
            ExpirationConfig {
                days: match m.expiration_days {
                    Some(d) => Some(d as u32),
                    None => None,
                },
                date: m.expiration_date,
                expired_object_delete_marker: m.expiration_expired_object_delete_marker,
            },
        )
    } else {
        None
    };
    let transitions = if m.transition_days.is_some() || m.transition_date.is_some()
        || m.transition_storage_class.is_some() {
        let mut v: Vec<TransitionConfig> = Vec::new();
        v.push(
            TransitionConfig {
                days: match m.transition_days {
                    Some(d) => Some(d as u32),
                    None => None,
                },
                date: m.transition_date,
                storage_class: match &m.transition_storage_class {
                    Some(c) => c.clone(),
                    None => String::new(),
                },
            },
        );
        Some(v)
    } else {
        None
    };
    LifecycleRule {
        id: m.id.clone(),
        prefix,
        status: if m.status {
            RuleStatus::Enabled
        } else {
            RuleStatus::Disabled
        },
        expiration,
        transitions,
        filter_tags: None,
    }
}

/// The storage configuration of a MinIO configuration: each rule converted, a later rule
/// with an id already seen replacing the earlier one in its place.
pub fn domain_to_service(config: &MinioLifecycleConfig) -> (r: LifecycleConfiguration)
    ensures
        store_ids(r.rules@) == ids_in_first_order(minio_ids(rule_models(config.rules@))),
        distinct_ids(r.rules@),
        from_last_sources(rule_models(config.rules@), config.rules@.len() as int, r.rules@),
{
    let ghost models = rule_models(config.rules@);
    let mut out = LifecycleConfiguration::new();
    let mut i: usize = 0;
    assert(store_ids(out.rules@) =~= ids_in_first_order(minio_ids(models).take(0)));
    while i < config.rules.len()
        invariant
            i <= config.rules@.len(),
            models == rule_models(config.rules@),
            store_ids(out.rules@) == ids_in_first_order(minio_ids(models).take(i as int)),
            distinct_ids(out.rules@),
            from_last_sources(models, i as int, out.rules@),
        decreases config.rules@.len() - i,
    {
        let s = convert_rule(&config.rules[i]);
        let ghost before = out.rules@;
        let ghost sv = s;
        assert(models[i as int] == rule_model(config.rules@[i as int]));
        out.add_rule(s);
        proof {
            lemma_upsert_step(models, i as int, before, out.rules@, sv);
        }
        i = i + 1;
    }
    assert(minio_ids(models).take(i as int) =~= minio_ids(models));
    out
}

/// The MinIO rule `m` is what the storage rule `s` converts to: same id and status, the
/// prefix as the filter's, the expiration's settings, and the first transition's settings.
pub open spec fn converts_back(s: LifecycleRule, m: MinioRuleModel) -> bool {
    &&& m.id == s.id@
    &&& m.status == (s.status == RuleStatus::Enabled)
    &&& m.prefix == Some(s.prefix@)
    &&& m.tag is None
    &&& m.and is None
    &&& m.abort_days is None
    &&& m.noncurrent_expiration_days is None
    &&& m.noncurrent_transition_days is None
    &&& m.noncurrent_transition_storage_class is None
    &&& match s.expiration {
        Some(e) => m.expiration_days == widen(e.days) && m.expiration_date == e.date
            && m.expired_object_delete_marker == e.expired_object_delete_marker,
        None => m.expiration_days is None && m.expiration_date is None
            && m.expired_object_delete_marker is None,
    }
    &&& match s.transitions {
        Some(v) if v@.len() > 0 => m.transition_days == widen(v@[0].days) && m.transition_date
            == v@[0].date && m.transition_storage_class == Some(v@[0].storage_class@),
        _ => m.transition_days is None && m.transition_date is None && m.transition_storage_class is None,
    }
}

fn convert_back(s: &LifecycleRule) -> (r: MinioLifecycleRule)
    ensures
        converts_back(*s, rule_model(r)),
{
    let mut m = MinioLifecycleRule {
        id: s.id.clone(),
        status: s.status == RuleStatus::Enabled,
        filter: MinioFilter { prefix: Some(s.prefix.clone()), tag: None, and: None },
        abort_incomplete_multipart_upload_days_after_initiation: None,
        expiration_date: None,
        expiration_days: None,
        expiration_expired_object_delete_marker: None,
        noncurrent_version_expiration_noncurrent_days: None,
        noncurrent_version_transition_noncurrent_days: None,
        noncurrent_version_transition_storage_class: None,
        transition_date: None,
        transition_days: None,
        transition_storage_class: None,
    };
    if let Some(e) = &s.expiration {
        m.expiration_days = match e.days {
            Some(d) => Some(d as usize),
            None => None,
        };
        m.expiration_date = e.date;
        m.expiration_expired_object_delete_marker = e.expired_object_delete_marker;
    }
    if let Some(v) = &s.transitions {
        if v.len() > 0 {
            let t = &v[0];
            m.transition_days = match t.days {
                Some(d) => Some(d as usize),
                None => None,
            };
            m.transition_date = t.date;
            m.transition_storage_class = Some(t.storage_class.clone());
        }
    }
    m
}

/// The MinIO configuration of a storage configuration, rule by rule in order.
pub fn service_to_domain(config: &LifecycleConfiguration) -> (r: MinioLifecycleConfig)
    ensures
        r.rules@.len() == config.rules@.len(),
        forall|k: int|
            0 <= k < r.rules@.len() ==> converts_back(config.rules@[k], #[trigger] rule_models(r.rules@)[k]),
{
    let mut out = MinioLifecycleConfig::default();
    let mut i: usize = 0;
    while i < config.rules.len()
        invariant
            i <= config.rules@.len(),
            out.rules@.len() == i,
            forall|k: int| 0 <= k < i ==> converts_back(config.rules@[k], rule_model(#[trigger] out.rules@[k])),
        decreases config.rules@.len() - i,
    {
        let m = convert_back(&config.rules[i]);
        out.rules.push(m);
        i = i + 1;
    }
    out
}

} // verus!
