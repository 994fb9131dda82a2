use vstd::prelude::*;

use crate::evaluation::{
    abort_multipart_action, delete_marker_action, expiration_date_action, expiration_days_action,
    noncurrent_expiration_action, noncurrent_transition_action, old_enough, rule_actions,
    rule_applies, rules_actions, transition_action, ActionModel, ObjectFacts,
};
use crate::lifecycle::{
    action_view, opt_class_view, opt_time_view, ApplicableAction, LifecycleActionView, LifecycleConfiguration, LifecycleRule,
    RuleStatus, StorageClassView,
};
use crate::lifecycle_adapter::{
    converts_back, converts_to, distinct_ids, from_last_sources, ids_in_first_order, last_with_its_id,
    minio_ids, store_ids,
};
use crate::minio::MinioRuleModel;
use crate::lifecycle_service::{
    applied_entries, bucket_of_key, configured_actions, evaluation_outcome, failed_entries,
    findings_of_rules, rule_findings, without_id,
};
use crate::store_lifecycle::{first_open_transition, first_problem, rule_problem};
use crate::time::{elapsed_secs, NANOS_PER_SEC};
use crate::value_objects::bucket_name_error;

verus! {

/// Every action of `small` is also an action of `big`.
pub open spec fn all_found_in(small: Seq<ActionModel>, big: Seq<ActionModel>) -> bool {
    forall|i: int| 0 <= i < small.len() ==> big.contains(#[trigger] small[i])
}

/// The two descriptions of an object differ at most in its creation time, the second
/// object being created no later than the first.
pub open spec fn older_copy(f1: ObjectFacts, f2: ObjectFacts) -> bool {
    &&& f2.key == f1.key
    &&& f2.tags == f1.tags
    &&& f2.is_delete_marker == f1.is_delete_marker
    &&& f2.is_current_version == f1.is_current_version
    &&& f2.created <= f1.created
}

proof fn lemma_found_in_concat(x1: Seq<ActionModel>, x2: Seq<ActionModel>, y1: Seq<ActionModel>, y2: Seq<ActionModel>)
    requires
        all_found_in(x1, x2),
        all_found_in(y1, y2),
    ensures
        all_found_in(x1 + y1, x2 + y2),
{
    assert forall|i: int| 0 <= i < (x1 + y1).len() implies (x2 + y2).contains(#[trigger] (x1 + y1)[i]) by {
        if i < x1.len() {
            assert(x2.contains(x1[i]));
            let j = choose|j: int| 0 <= j < x2.len() && x2[j] == x1[i];
            assert((x2 + y2)[j] == x1[i]);
        } else {
            assert((x1 + y1)[i] == y1[i - x1.len()]);
            assert(y2.contains(y1[i - x1.len()]));
            let j = choose|j: int| 0 <= j < y2.len() && y2[j] == y1[i - x1.len()];
            assert((x2 + y2)[x2.len() + j] == y1[i - x1.len()]);
        }
    }
}

/// An object that is older is at least as old enough.
proof fn lemma_old_enough_older(c1: int, c2: int, now: int, days: u32)
    requires
        c2 <= c1,
        old_enough(c1, now, days),
    ensures
        old_enough(c2, now, days),
{
    if now > c1 {
        vstd::arithmetic::div_mod::lemma_div_is_ordered(now - c1, now - c2, NANOS_PER_SEC as int);
    }
    assert(elapsed_secs(c1, now) <= elapsed_secs(c2, now));
}

/// A rule calls for, on an older object, every action it calls for on a younger one.
proof fn lemma_rule_actions_older(rule: LifecycleRule, f1: ObjectFacts, f2: ObjectFacts, now: int)
    requires
        older_copy(f1, f2),
    ensures
        all_found_in(rule_actions(rule, f1, now), rule_actions(rule, f2, now)),
{
    reveal(expiration_days_action);
    reveal(transition_action);
    reveal(delete_marker_action);
    reveal(noncurrent_expiration_action);
    reveal(noncurrent_transition_action);
    assert(f1.tags =~= f2.tags);
    assert(rule_applies(rule, f1) == rule_applies(rule, f2));
    if rule_applies(rule, f1) {
        let parts1 = seq![
            expiration_days_action(rule, f1, now),
            expiration_date_action(rule, now),
            transition_action(rule, f1, now),
            delete_marker_action(rule, f1, now),
            noncurrent_expiration_action(rule, f1, now),
            noncurrent_transition_action(rule, f1, now),
            abort_multipart_action(rule),
        ];
        let parts2 = seq![
            expiration_days_action(rule, f2, now),
            expiration_date_action(rule, now),
            transition_action(rule, f2, now),
            delete_marker_action(rule, f2, now),
            noncurrent_expiration_action(rule, f2, now),
            noncurrent_transition_action(rule, f2, now),
            abort_multipart_action(rule),
        ];
        assert forall|k: int| 0 <= k < 7 implies all_found_in(parts1[k], parts2[k]) by {
            if parts1[k].len() > 0 {
                match rule.expiration_days {
                    Some(d) => if old_enough(f1.created, now, d) {
                        lemma_old_enough_older(f1.created, f2.created, now, d);
                    },
                    None => {},
                }
                match rule.transition_days {
                    Some(d) => if old_enough(f1.created, now, d) {
                        lemma_old_enough_older(f1.created, f2.created, now, d);
                    },
                    None => {},
                }
                match rule.del_marker_expiration_days {
                    Some(d) => if old_enough(f1.created, now, d) {
                        lemma_old_enough_older(f1.created, f2.created, now, d);
                    },
                    None => {},
                }
                match rule.noncurrent_version_expiration_noncurrent_days {
                    Some(d) => if old_enough(f1.created, now, d) {
                        lemma_old_enough_older(f1.created, f2.created, now, d);
                    },
                    None => {},
                }
                match rule.noncurrent_version_transition_noncurrent_days {
                    Some(d) => if old_enough(f1.created, now, d) {
                        lemma_old_enough_older(f1.created, f2.created, now, d);
                    },
                    None => {},
                }
                assert(parts1[k] == parts2[k]);
            }
            assert forall|i: int| 0 <= i < parts1[k].len() implies parts2[k].contains(#[trigger] parts1[k][i]) by {
                assert(parts2[k][i] == parts1[k][i]);
            }
        }
        lemma_found_in_concat(parts1[0], parts2[0], parts1[1], parts2[1]);
        lemma_found_in_concat(parts1[0] + parts1[1], parts2[0] + parts2[1], parts1[2], parts2[2]);
        lemma_found_in_concat(
            parts1[0] + parts1[1] + parts1[2],
            parts2[0] + parts2[1] + parts2[2],
            parts1[3],
            parts2[3],
        );
        lemma_found_in_concat(
            parts1[0] + parts1[1] + parts1[2] + parts1[3],
            parts2[0] + parts2[1] + parts2[2] + parts2[3],
            parts1[4],
            parts2[4],
        );
        lemma_found_in_concat(
            parts1[0] + parts1[1] + parts1[2] + parts1[3] + parts1[4],
            parts2[0] + parts2[1] + parts2[2] + parts2[3] + parts2[4],
            parts1[5],
            parts2[5],
        );
        lemma_found_in_concat(
            parts1[0] + parts1[1] + parts1[2] + parts1[3] + parts1[4] + parts1[5],
            parts2[0] + parts2[1] + parts2[2] + parts2[3] + parts2[4] + parts2[5],
            parts1[6],
            parts2[6],
        );
    } else {
        assert(rule_actions(rule, f1, now).len() == 0);
    }
}

proof fn lemma_rules_actions_older(rules: Seq<LifecycleRule>, f1: ObjectFacts, f2: ObjectFacts, now: int)
    requires
        older_copy(f1, f2),
    ensures
        all_found_in(rules_actions(rules, f1, now), rules_actions(rules, f2, now)),
    decreases rules.len(),
{
    if rules.len() > 0 {
        lemma_rules_actions_older(rules.drop_last(), f1, f2, now);
        lemma_rule_actions_older(rules.last(), f1, f2, now);
        lemma_found_in_concat(
            rules_actions(rules.drop_last(), f1, now),
            rules_actions(rules.drop_last(), f2, now),
            rule_actions(rules.last(), f1, now),
            rule_actions(rules.last(), f2, now),
        );
    }
}

proof fn lemma_configured_actions_older(
    configs: Map<Seq<char>, LifecycleConfiguration>,
    names: Seq<Seq<char>>,
    f1: ObjectFacts,
    f2: ObjectFacts,
    now: int,
)
    requires
        older_copy(f1, f2),
    ensures
        all_found_in(configured_actions(configs, names, f1, now), configured_actions(configs, names, f2, now)),
    decreases names.len(),
{
    if names.len() > 0 {
        lemma_configured_actions_older(configs, names.drop_last(), f1, f2, now);
        lemma_rules_actions_older(configs[names.last()].rules@, f1, f2, now);
        lemma_found_in_concat(
            configured_actions(configs, names.drop_last(), f1, now),
            configured_actions(configs, names.drop_last(), f2, now),
            rules_actions(configs[names.last()].rules@, f1, now),
            rules_actions(configs[names.last()].rules@, f2, now),
        );
    }
}

/// An older object never loses an action: evaluated against the same configurations at
/// the same instant, every action called for on an object is also called for on the same
/// object created no later.
pub proof fn law_older_object_keeps_its_actions(
    configs: Map<Seq<char>, LifecycleConfiguration>,
    names: Seq<Seq<char>>,
    f1: ObjectFacts,
    f2: ObjectFacts,
    now: int,
)
    requires
        older_copy(f1, f2),
    ensures
        match (evaluation_outcome(configs, names, f1, now), evaluation_outcome(configs, names, f2, now)) {
            (Ok(a1), Ok(a2)) => all_found_in(a1, a2),
            (Err(e1), Err(e2)) => e1 == e2,
            _ => false,
        },
{
    let b = bucket_of_key(f1.key);
    if configs.dom().contains(b) {
        lemma_rules_actions_older(configs[b].rules@, f1, f2, now);
    } else {
        lemma_configured_actions_older(configs, names, f1, f2, now);
    }
}

/// Every action is one that this rule, applying to the object, calls for.
pub open spec fn all_from_rule(acts: Seq<ActionModel>, rule: LifecycleRule, f: ObjectFacts) -> bool {
    forall|i: int| 0 <= i < acts.len() ==> (#[trigger] acts[i]).rule_id == rule.id@ && rule_applies(rule, f)
}

/// The action comes from a rule of the list that is enabled and whose filter passes the
/// object (taken with size 0).
pub open spec fn from_some_rule(a: ActionModel, rules: Seq<LifecycleRule>, f: ObjectFacts) -> bool {
    exists|j: int| 0 <= j < rules.len() && (#[trigger] rules[j]).id@ == a.rule_id && rule_applies(rules[j], f)
}

/// Every action comes from an applying rule of the list.
pub open spec fn all_from_rules(acts: Seq<ActionModel>, rules: Seq<LifecycleRule>, f: ObjectFacts) -> bool {
    forall|i: int| 0 <= i < acts.len() ==> from_some_rule(#[trigger] acts[i], rules, f)
}

proof fn lemma_from_rule_concat(x: Seq<ActionModel>, y: Seq<ActionModel>, rule: LifecycleRule, f: ObjectFacts)
    requires
        all_from_rule(x, rule, f),
        all_from_rule(y, rule, f),
    ensures
        all_from_rule(x + y, rule, f),
{
    assert forall|i: int| 0 <= i < (x + y).len() implies (#[trigger] (x + y)[i]).rule_id == rule.id@
        && rule_applies(rule, f) by {
        if i < x.len() {
            assert((x + y)[i] == x[i]);
        } else {
            assert((x + y)[i] == y[i - x.len()]);
        }
    }
}

proof fn lemma_rule_actions_from_rule(rule: LifecycleRule, f: ObjectFacts, now: int)
    ensures
        all_from_rule(rule_actions(rule, f, now), rule, f),
{
    reveal(expiration_days_action);
    reveal(expiration_date_action);
    reveal(transition_action);
    reveal(delete_marker_action);
    reveal(noncurrent_expiration_action);
    reveal(noncurrent_transition_action);
    reveal(abort_multipart_action);
    if rule_applies(rule, f) {
        let p0 = expiration_days_action(rule, f, now);
        let p1 = expiration_date_action(rule, now);
        let p2 = transition_action(rule, f, now);
        let p3 = delete_marker_action(rule, f, now);
        let p4 = noncurrent_expiration_action(rule, f, now);
        let p5 = noncurrent_transition_action(rule, f, now);
        let p6 = abort_multipart_action(rule);
        assert(all_from_rule(p0, rule, f));
        assert(all_from_rule(p1, rule, f));
        assert(all_from_rule(p2, rule, f));
        assert(all_from_rule(p3, rule, f));
        assert(all_from_rule(p4, rule, f));
        assert(all_from_rule(p5, rule, f));
        assert(all_from_rule(p6, rule, f));
        lemma_from_rule_concat(p0, p1, rule, f);
        lemma_from_rule_concat(p0 + p1, p2, rule, f);
        lemma_from_rule_concat(p0 + p1 + p2, p3, rule, f);
        lemma_from_rule_concat(p0 + p1 + p2 + p3, p4, rule, f);
        lemma_from_rule_concat(p0 + p1 + p2 + p3 + p4, p5, rule, f);
        lemma_from_rule_concat(p0 + p1 + p2 + p3 + p4 + p5, p6, rule, f);
    }
}

proof fn lemma_rules_actions_from_rules(rules: Seq<LifecycleRule>, f: ObjectFacts, now: int)
    ensures
        all_from_rules(rules_actions(rules, f, now), rules, f),
    decreases rules.len(),
{
    if rules.len() > 0 {
        let front = rules.drop_last();
        lemma_rules_actions_from_rules(front, f, now);
        lemma_rule_actions_from_rule(rules.last(), f, now);
        let x = rules_actions(front, f, now);
        let y = rule_actions(rules.last(), f, now);
        assert forall|i: int| 0 <= i < (x + y).len() implies from_some_rule(#[trigger] (x + y)[i], rules, f) by {
            if i < x.len() {
                assert((x + y)[i] == x[i]);
                assert(from_some_rule(x[i], front, f));
                let j = choose|j: int| 0 <= j < front.len() && (#[trigger] front[j]).id@ == x[i].rule_id
                    && rule_applies(front[j], f);
                assert(rules[j] == front[j]);
            } else {
                assert((x + y)[i] == y[i - x.len()]);
                assert(y[i - x.len()].rule_id == rules.last().id@);
                assert(rules[rules.len() - 1] == rules.last());
            }
        }
    }
}

/// The action comes from an applying rule of one of the named buckets' configurations.
pub open spec fn from_configured_rule(
    a: ActionModel,
    configs: Map<Seq<char>, LifecycleConfiguration>,
    names: Seq<Seq<char>>,
    f: ObjectFacts,
) -> bool {
    exists|k: int| 0 <= k < names.len() && from_some_rule(a, configs[#[trigger] names[k]].rules@, f)
}

proof fn lemma_configured_actions_from_rules(
    configs: Map<Seq<char>, LifecycleConfiguration>,
    names: Seq<Seq<char>>,
    f: ObjectFacts,
    now: int,
)
    ensures
        forall|i: int|
            0 <= i < configured_actions(configs, names, f, now).len() ==> from_configured_rule(
                #[trigger] configured_actions(configs, names, f, now)[i],
                configs,
                names,
                f,
            ),
    decreases names.len(),
{
    if names.len() > 0 {
        let front = names.drop_last();
        lemma_configured_actions_from_rules(configs, front, f, now);
        lemma_rules_actions_from_rules(configs[names.last()].rules@, f, now);
        let x = configured_actions(configs, front, f, now);
        let y = rules_actions(configs[names.last()].rules@, f, now);
        assert forall|i: int| 0 <= i < (x + y).len() implies from_configured_rule(
            #[trigger] (x + y)[i],
            configs,
            names,
            f,
        ) by {
            if i < x.len() {
                assert((x + y)[i] == x[i]);
                assert(from_configured_rule(x[i], configs, front, f));
                let k = choose|k: int| 0 <= k < front.len() && from_some_rule(
                    x[i],
                    configs[#[trigger] front[k]].rules@,
                    f,
                );
                assert(names[k] == front[k]);
            } else {
                assert((x + y)[i] == y[i - x.len()]);
                assert(from_some_rule(y[i - x.len()], configs[names.last()].rules@, f));
                assert(names[names.len() - 1] == names.last());
            }
        }
    }
}

/// Evaluation refuses a key whose first part is no valid bucket name; otherwise every
/// action that it reports comes from a rule that is enabled and whose filter passes the
/// object (taken with size 0): a rule of the configuration of the bucket that the key's
/// first part names, when that bucket has one, and otherwise a rule of one of the
/// configured buckets. With no configuration to read, nothing is reported.
pub proof fn law_actions_come_from_applying_rules(
    configs: Map<Seq<char>, LifecycleConfiguration>,
    names: Seq<Seq<char>>,
    f: ObjectFacts,
    now: int,
)
    ensures
        evaluation_outcome(configs, names, f, now) is Err <==> bucket_name_error(bucket_of_key(f.key)) is Some,
        evaluation_outcome(configs, names, f, now) matches Ok(acts) ==> {
            let b = bucket_of_key(f.key);
            if configs.dom().contains(b) {
                all_from_rules(acts, configs[b].rules@, f)
            } else {
                &&& forall|i: int|
                    0 <= i < acts.len() ==> from_configured_rule(#[trigger] acts[i], configs, names, f)
                &&& names.len() == 0 ==> acts.len() == 0
            }
        },
{
    let b = bucket_of_key(f.key);
    if configs.dom().contains(b) {
        lemma_rules_actions_from_rules(configs[b].rules@, f, now);
    } else {
        lemma_configured_actions_from_rules(configs, names, f, now);
    }
}

/// The rule has an action, its expiration (when set) gives days or a date, and so does
/// each of its transitions.
pub open spec fn rule_complete(r: crate::store_lifecycle::LifecycleRule) -> bool {
    &&& (r.expiration is Some || r.transitions is Some)
    &&& (r.expiration matches Some(e) ==> (e.days is Some || e.date is Some))
    &&& (r.transitions matches Some(ts) ==> forall|j: int|
        0 <= j < ts@.len() ==> ((#[trigger] ts@[j]).days is Some || ts@[j].date is Some))
}

proof fn lemma_rule_problem_complete(r: crate::store_lifecycle::LifecycleRule)
    ensures
        rule_problem(r) is None <==> rule_complete(r),
{
    if let Some(ts) = r.transitions {
        if first_open_transition(ts@) is None {
            assert forall|j: int| 0 <= j < ts@.len() implies ((#[trigger] ts@[j]).days is Some
                || ts@[j].date is Some) by {
                if ts@[j].days is None && ts@[j].date is None {
                    assert(exists|i: int| 0 <= i < ts@.len() && ts@[i].days is None && ts@[i].date is None);
                }
            }
        } else {
            let i = choose|i: int|
                0 <= i < ts@.len() && ts@[i].days is None && ts@[i].date is None && forall|j: int|
                    0 <= j < i ==> !((#[trigger] ts@[j]).days is None && ts@[j].date is None);
            assert(exists|i: int| 0 <= i < ts@.len() && ts@[i].days is None && ts@[i].date is None);
        }
    }
}

/// A storage configuration validates exactly when every rule is complete: it has an
/// action, its expiration gives days or a date, and each transition gives days or a
/// date. (`validate` reports the first problem otherwise.)
pub proof fn law_validate_accepts_complete_rules(rules: Seq<crate::store_lifecycle::LifecycleRule>)
    ensures
        first_problem(rules) is None <==> forall|i: int| 0 <= i < rules.len() ==> rule_complete(#[trigger] rules[i]),
    decreases rules.len(),
{
    if rules.len() > 0 {
        let front = rules.drop_last();
        law_validate_accepts_complete_rules(front);
        lemma_rule_problem_complete(rules.last());
        if first_problem(rules) is None {
            assert forall|i: int| 0 <= i < rules.len() implies rule_complete(#[trigger] rules[i]) by {
                if i < front.len() {
                    assert(rules[i] == front[i]);
                } else {
                    assert(rules[i] == rules.last());
                }
            }
        } else {
            if forall|i: int| 0 <= i < rules.len() ==> rule_complete(#[trigger] rules[i]) {
                assert forall|i: int| 0 <= i < front.len() implies rule_complete(#[trigger] front[i]) by {
                    assert(front[i] == rules[i]);
                }
                assert(rule_complete(rules[rules.len() - 1]));
            }
        }
    }
}

/// The number of transitions among the actions.
pub open spec fn transition_count(actions: Seq<ApplicableAction>) -> nat
    decreases actions.len(),
{
    if actions.len() == 0 {
        0
    } else {
        transition_count(actions.drop_last()) + if action_view(actions.last().action) is Transition {
            1nat
        } else {
            0nat
        }
    }
}

/// Applying actions accounts for each of them once: it is either applied or failed, and
/// the failed ones are exactly the transitions (expirations, with the in-memory store,
/// never fail).
pub proof fn law_every_action_applied_or_failed(actions: Seq<ApplicableAction>)
    ensures
        applied_entries(actions).len() + failed_entries(actions).len() == actions.len(),
        failed_entries(actions).len() == transition_count(actions),
    decreases actions.len(),
{
    if actions.len() > 0 {
        law_every_action_applied_or_failed(actions.drop_last());
    }
}

/// A storage rule that the MinIO form carries whole: no tags, at most one transition, and
/// an expiration, when set, with at least one setting.
pub open spec fn minio_carries(r: crate::store_lifecycle::LifecycleRule) -> bool {
    &&& r.filter_tags is None
    &&& (r.transitions matches Some(v) ==> v@.len() == 1)
    &&& (r.expiration matches Some(e) ==> (e.days is Some || e.date is Some
        || e.expired_object_delete_marker is Some))
}

/// The two storage rules agree in id, prefix, status, expiration and transitions.
pub open spec fn same_storage_rule(
    a: crate::store_lifecycle::LifecycleRule,
    b: crate::store_lifecycle::LifecycleRule,
) -> bool {
    &&& a.id@ == b.id@
    &&& a.prefix@ == b.prefix@
    &&& a.status == b.status
    &&& a.expiration == b.expiration
    &&& match (a.transitions, b.transitions) {
        (None, None) => true,
        (Some(x), Some(y)) => x@.len() == y@.len() && forall|j: int|
            0 <= j < x@.len() ==> (#[trigger] x@[j]).days == y@[j].days && x@[j].date == y@[j].date
                && x@[j].storage_class@ == y@[j].storage_class@,
        _ => false,
    }
}

proof fn lemma_distinct_ids_first_order(ids: Seq<Seq<char>>)
    requires
        ids.no_duplicates(),
    ensures
        ids_in_first_order(ids) == ids,
    decreases ids.len(),
{
    if ids.len() > 0 {
        let front = ids.drop_last();
        assert(front.no_duplicates());
        lemma_distinct_ids_first_order(front);
        assert(!front.contains(ids.last()));
        assert(front.push(ids.last()) =~= ids);
    }
}

/// Converting storage rules to the MinIO form and back gives the same rules, in the same
/// order, when their ids are distinct and each is carried whole by the MinIO form.
pub proof fn law_storage_rules_survive_minio_round_trip(
    c: Seq<crate::store_lifecycle::LifecycleRule>,
    ms: Seq<MinioRuleModel>,
    r: Seq<crate::store_lifecycle::LifecycleRule>,
)
    requires
        distinct_ids(c),
        forall|k: int| 0 <= k < c.len() ==> minio_carries(#[trigger] c[k]),
        ms.len() == c.len(),
        forall|k: int| 0 <= k < c.len() ==> converts_back(c[k], #[trigger] ms[k]),
        store_ids(r) == ids_in_first_order(minio_ids(ms)),
        distinct_ids(r),
        from_last_sources(ms, ms.len() as int, r),
    ensures
        r.len() == c.len(),
        forall|k: int| 0 <= k < c.len() ==> same_storage_rule(#[trigger] r[k], c[k]),
{
    let ids = minio_ids(ms);
    assert forall|a: int, b: int| 0 <= a < ids.len() && 0 <= b < ids.len() && a != b implies ids[a] != ids[b] by {
        assert(ids[a] == ms[a].id);
        assert(ids[b] == ms[b].id);
        assert(ms[a].id == c[a].id@);
        assert(ms[b].id == c[b].id@);
        if a < b {
            assert(c[a].id@ != c[b].id@);
        } else {
            assert(c[b].id@ != c[a].id@);
        }
    }
    assert(ids.no_duplicates());
    lemma_distinct_ids_first_order(ids);
    assert(store_ids(r).len() == r.len());
    assert forall|k: int| 0 <= k < c.len() implies same_storage_rule(#[trigger] r[k], c[k]) by {
        assert(store_ids(r)[k] == r[k].id@);
        assert(ids[k] == ms[k].id);
        let j = choose|j: int| #[trigger] last_with_its_id(ms, ms.len() as int, j) && converts_to(ms[j], r[k]);
        assert(ms[j].id == r[k].id@);
        if j != k {
            assert(ids[j] == ms[j].id);
            assert(false);
        }
        let ck = c[k];
        let m = ms[k];
        match ck.expiration {
            Some(e) => {
                match e.days {
                    Some(d) => {
                        assert((d as usize) as u32 == d);
                    },
                    None => {},
                }
                assert(r[k].expiration == ck.expiration);
            },
            None => {},
        }
        match ck.transitions {
            Some(v) => {
                match v@[0].days {
                    Some(d) => {
                        assert((d as usize) as u32 == d);
                    },
                    None => {},
                }
            },
            None => {},
        }
    }
}

proof fn lemma_without_id_elements(rules: Seq<LifecycleRule>, id: Seq<char>)
    ensures
        forall|k: int|
            0 <= k < without_id(rules, id).len() ==> rules.contains(#[trigger] without_id(rules, id)[k]),
    decreases rules.len(),
{
    if rules.len() > 0 {
        let front = rules.drop_last();
        lemma_without_id_elements(front, id);
        let kf = without_id(front, id);
        assert forall|k: int| 0 <= k < without_id(rules, id).len() implies rules.contains(
            #[trigger] without_id(rules, id)[k],
        ) by {
            if k < kf.len() {
                assert(without_id(rules, id)[k] == kf[k]);
                assert(front.contains(kf[k]));
                let j = choose|j: int| 0 <= j < front.len() && front[j] == kf[k];
                assert(rules[j] == front[j]);
            } else {
                assert(without_id(rules, id)[k] == rules.last());
                assert(rules[rules.len() - 1] == rules.last());
            }
        }
    }
}

proof fn lemma_rule_checks_hold(rules: Seq<LifecycleRule>, id: Seq<char>)
    requires
        crate::lifecycle::rules_validation_error(rules) is None,
        rule_findings(rules).len() == 0,
    ensures
        crate::lifecycle::rules_validation_error(without_id(rules, id)) is None,
        rule_findings(without_id(rules, id)).len() == 0,
    decreases rules.len(),
{
    if rules.len() > 0 {
        let front = rules.drop_last();
        let last = rules.last();
        assert(crate::lifecycle::rules_validation_error(front) is None);
        assert(rule_findings(front).len() == 0);
        lemma_rule_checks_hold(front, id);
        if last.id@ != id {
            let kf = without_id(front, id);
            let kept = without_id(rules, id);
            assert(kept == kf.push(last));
            assert(kept.drop_last() =~= kf);
            assert(kept.last() == last);
            lemma_without_id_elements(front, id);
            assert(!crate::lifecycle::id_seen_before(kept, kept.len() - 1)) by {
                if crate::lifecycle::id_seen_before(kept, kept.len() - 1) {
                    let j = choose|j: int| 0 <= j < kept.len() - 1 && (#[trigger] kept[j]).id@ == kept[kept.len() - 1].id@;
                    assert(kept[j] == kf[j]);
                    assert(front.contains(kf[j]));
                    let i = choose|i: int| 0 <= i < front.len() && front[i] == kf[j];
                    assert(rules[i] == front[i]);
                    assert(crate::lifecycle::id_seen_before(rules, rules.len() - 1));
                }
            }
        }
    }
}

/// Removing the rules with an id from rules that validate leaves rules that validate: the
/// validation failure that `remove_rule` can report never arises for a configuration that
/// was accepted when it was set.
pub proof fn law_removing_rules_keeps_rules_valid(rules: Seq<LifecycleRule>, id: Seq<char>)
    requires
        findings_of_rules(rules).len() == 0,
    ensures
        findings_of_rules(without_id(rules, id)).len() == 0,
{
    assert(crate::lifecycle::rules_validation_error(rules) is None);
    lemma_rule_checks_hold(rules, id);
}

/// The object, created at `created`, is at least `days` whole days old at `now` (times in
/// nanoseconds since the epoch).
pub open spec fn aged(created: int, now: int, days: u32) -> bool {
    days == 0 || now - created >= days * 86_400_000_000_000
}

/// Some action of the list is `a`.
pub open spec fn calls_for(acts: Seq<ActionModel>, a: LifecycleActionView) -> bool {
    exists|i: int| 0 <= i < acts.len() && (#[trigger] acts[i]).action == a
}

proof fn lemma_old_enough_is_aged(created: int, now: int, days: u32)
    ensures
        old_enough(created, now, days) <==> aged(created, now, days),
{
    let k = days * 86400;
    if now > created {
        let x = now - created;
        let q = x / 1_000_000_000;
        assert(x == q * 1_000_000_000 + x % 1_000_000_000 && 0 <= x % 1_000_000_000 < 1_000_000_000)
            by (nonlinear_arith)
            requires
                x > 0,
                q == x / 1_000_000_000,
        ;
        assert(q >= k <==> x >= k * 1_000_000_000) by (nonlinear_arith)
            requires
                x == q * 1_000_000_000 + x % 1_000_000_000,
                0 <= x % 1_000_000_000 < 1_000_000_000,
                k >= 0,
        ;
    }
}

proof fn lemma_calls_for_concat(x: Seq<ActionModel>, y: Seq<ActionModel>, a: LifecycleActionView)
    ensures
        calls_for(x + y, a) <==> (calls_for(x, a) || calls_for(y, a)),
{
    if calls_for(x + y, a) {
        let i = choose|i: int| 0 <= i < (x + y).len() && (#[trigger] (x + y)[i]).action == a;
        if i < x.len() {
            assert(x[i] == (x + y)[i]);
        } else {
            assert(y[i - x.len()] == (x + y)[i]);
        }
    }
    if calls_for(x, a) {
        let i = choose|i: int| 0 <= i < x.len() && (#[trigger] x[i]).action == a;
        assert((x + y)[i] == x[i]);
    }
    if calls_for(y, a) {
        let i = choose|i: int| 0 <= i < y.len() && (#[trigger] y[i]).action == a;
        assert((x + y)[x.len() + i] == y[i]);
    }
}

proof fn lemma_calls_for_small(x: Seq<ActionModel>, a: LifecycleActionView)
    requires
        x.len() <= 1,
    ensures
        calls_for(x, a) <==> (x.len() == 1 && x[0].action == a),
{
    if x.len() == 1 && x[0].action == a {
        assert(x[0].action == a);
    }
}

/// What one rule calls for on an object, action by action, in terms of the rule's settings
/// and the object: nothing unless the rule is enabled and its filter passes the object
/// (taken with size 0); expiration by age once the object is that many days old;
/// expiration at a date once that date has come; a transition by age, to the rule's storage
/// class, once the object is old enough; a delete-marker expiration only for a delete marker;
/// the non-current version expiration and transition only for a version that is not the
/// current one; and the multipart cleanup whenever the rule sets it.
#[verifier::spinoff_prover]
#[verifier::rlimit(60)]
pub proof fn law_rule_actions_by_setting(rule: LifecycleRule, f: ObjectFacts, now: int)
    ensures
        ({
            let on = rule.status == RuleStatus::Enabled && rule.filter.spec_matches(f.key, f.tags, 0);
            &&& !on ==> rule_actions(rule, f, now).len() == 0
            &&& forall|d: u32|
                #![trigger calls_for(rule_actions(rule, f, now), (LifecycleActionView::Expiration { days: Some(d), date: None }))]
                calls_for(rule_actions(rule, f, now), LifecycleActionView::Expiration { days: Some(d), date: None })
                <==> (on && rule.expiration_days == Some(d) && aged(f.created, now, d))
            &&& forall|t: int|
                #![trigger calls_for(rule_actions(rule, f, now), (LifecycleActionView::Expiration { days: None, date: Some(t) }))]
                calls_for(rule_actions(rule, f, now), LifecycleActionView::Expiration { days: None, date: Some(t) })
                <==> (on && opt_time_view(rule.expiration_date) == Some(t) && now >= t)
            &&& forall|d: u32, c: StorageClassView|
                #![trigger calls_for(rule_actions(rule, f, now), (LifecycleActionView::Transition { days: Some(d), date: None, storage_class: c }))]
                calls_for(rule_actions(rule, f, now), LifecycleActionView::Transition { days: Some(d), date: None, storage_class: c })
                <==> (on && rule.transition_days == Some(d) && opt_class_view(rule.transition_storage_class)
                    == Some(c) && aged(f.created, now, d))
            &&& forall|d: u32|
                #![trigger calls_for(rule_actions(rule, f, now), (LifecycleActionView::ExpireDeleteMarker { days: d }))]
                calls_for(rule_actions(rule, f, now), LifecycleActionView::ExpireDeleteMarker { days: d })
                <==> (on && rule.del_marker_expiration_days == Some(d) && f.is_delete_marker
                    && aged(f.created, now, d))
            &&& forall|d: u32|
                #![trigger calls_for(rule_actions(rule, f, now), (LifecycleActionView::NonCurrentVersionExpiration { days: d }))]
                calls_for(rule_actions(rule, f, now), LifecycleActionView::NonCurrentVersionExpiration { days: d })
                <==> (on && rule.noncurrent_version_expiration_noncurrent_days == Some(d)
                    && !f.is_current_version && aged(f.created, now, d))
            &&& forall|d: u32, c: StorageClassView|
                #![trigger calls_for(rule_actions(rule, f, now), (LifecycleActionView::NonCurrentVersionTransition { days: d, storage_class: c }))]
                calls_for(rule_actions(rule, f, now), LifecycleActionView::NonCurrentVersionTransition { days: d, storage_class: c })
                <==> (on && rule.noncurrent_version_transition_noncurrent_days == Some(d)
                    && opt_class_view(rule.noncurrent_version_transition_storage_class) == Some(c)
                    && !f.is_current_version && aged(f.created, now, d))
            &&& forall|d: u32|
                #![trigger calls_for(rule_actions(rule, f, now), (LifecycleActionView::AbortIncompleteMultipartUpload { days_after_initiation: d }))]
                calls_for(rule_actions(rule, f, now), LifecycleActionView::AbortIncompleteMultipartUpload { days_after_initiation: d })
                <==> (on && rule.abort_incomplete_multipart_upload_days_after_initiation == Some(d))
        }),
{
    reveal(expiration_days_action);
    reveal(expiration_date_action);
    reveal(transition_action);
    reveal(delete_marker_action);
    reveal(noncurrent_expiration_action);
    reveal(noncurrent_transition_action);
    reveal(abort_multipart_action);
    let acts = rule_actions(rule, f, now);
    let p0 = expiration_days_action(rule, f, now);
    let p1 = expiration_date_action(rule, now);
    let p2 = transition_action(rule, f, now);
    let p3 = delete_marker_action(rule, f, now);
    let p4 = noncurrent_expiration_action(rule, f, now);
    let p5 = noncurrent_transition_action(rule, f, now);
    let p6 = abort_multipart_action(rule);
    if let Some(d) = rule.expiration_days {
        lemma_old_enough_is_aged(f.created, now, d);
    }
    if let Some(d) = rule.transition_days {
        lemma_old_enough_is_aged(f.created, now, d);
    }
    if let Some(d) = rule.del_marker_expiration_days {
        lemma_old_enough_is_aged(f.created, now, d);
    }
    if let Some(d) = rule.noncurrent_version_expiration_noncurrent_days {
        lemma_old_enough_is_aged(f.created, now, d);
    }
    if let Some(d) = rule.noncurrent_version_transition_noncurrent_days {
        lemma_old_enough_is_aged(f.created, now, d);
    }
    assert forall|a: LifecycleActionView| #[trigger] calls_for(acts, a) <==> (rule_applies(rule, f) && (
    (p0.len() == 1 && p0[0].action == a) || (p1.len() == 1 && p1[0].action == a) || (p2.len() == 1
        && p2[0].action == a) || (p3.len() == 1 && p3[0].action == a) || (p4.len() == 1 && p4[0].action
        == a) || (p5.len() == 1 && p5[0].action == a) || (p6.len() == 1 && p6[0].action == a))) by {
        if rule_applies(rule, f) {
            lemma_calls_for_concat(p0, p1, a);
            lemma_calls_for_concat(p0 + p1, p2, a);
            lemma_calls_for_concat(p0 + p1 + p2, p3, a);
            lemma_calls_for_concat(p0 + p1 + p2 + p3, p4, a);
            lemma_calls_for_concat(p0 + p1 + p2 + p3 + p4, p5, a);
            lemma_calls_for_concat(p0 + p1 + p2 + p3 + p4 + p5, p6, a);
            lemma_calls_for_small(p0, a);
            lemma_calls_for_small(p1, a);
            lemma_calls_for_small(p2, a);
            lemma_calls_for_small(p3, a);
            lemma_calls_for_small(p4, a);
            lemma_calls_for_small(p5, a);
            lemma_calls_for_small(p6, a);
        } else {
            lemma_calls_for_small(acts, a);
        }
    }
}

/// No action of the list is for a non-current version when the object is the current
/// version, and none expires a delete marker when the object is not one.
pub open spec fn fits_the_version(acts: Seq<ActionModel>, f: ObjectFacts) -> bool {
    forall|i: int|
        0 <= i < acts.len() ==> {
            let a = (#[trigger] acts[i]).action;
            &&& (a is NonCurrentVersionExpiration || a is NonCurrentVersionTransition) ==> !f.is_current_version
            &&& a is ExpireDeleteMarker ==> f.is_delete_marker
        }
}

proof fn lemma_fits_concat(x: Seq<ActionModel>, y: Seq<ActionModel>, f: ObjectFacts)
    requires
        fits_the_version(x, f),
        fits_the_version(y, f),
    ensures
        fits_the_version(x + y, f),
{
    assert forall|i: int| 0 <= i < (x + y).len() implies {
        let a = (#[trigger] (x + y)[i]).action;
        &&& (a is NonCurrentVersionExpiration || a is NonCurrentVersionTransition) ==> !f.is_current_version
        &&& a is ExpireDeleteMarker ==> f.is_delete_marker
    } by {
        if i < x.len() {
            assert((x + y)[i] == x[i]);
        } else {
            assert((x + y)[i] == y[i - x.len()]);
        }
    }
}

#[verifier::spinoff_prover]
proof fn lemma_rule_fits(rule: LifecycleRule, f: ObjectFacts, now: int)
    ensures
        fits_the_version(rule_actions(rule, f, now), f),
{
    let acts = rule_actions(rule, f, now);
    law_rule_actions_by_setting(rule, f, now);
    assert forall|i: int| 0 <= i < acts.len() implies {
        let a = (#[trigger] acts[i]).action;
        &&& (a is NonCurrentVersionExpiration || a is NonCurrentVersionTransition) ==> !f.is_current_version
        &&& a is ExpireDeleteMarker ==> f.is_delete_marker
    } by {
        let a = acts[i].action;
        assert(calls_for(acts, a));
        match a {
            LifecycleActionView::NonCurrentVersionExpiration { days } => {
                assert(calls_for(acts, LifecycleActionView::NonCurrentVersionExpiration { days }));
            },
            LifecycleActionView::NonCurrentVersionTransition { days, storage_class } => {
                assert(calls_for(acts, LifecycleActionView::NonCurrentVersionTransition { days, storage_class }));
            },
            LifecycleActionView::ExpireDeleteMarker { days } => {
                assert(calls_for(acts, LifecycleActionView::ExpireDeleteMarker { days }));
            },
            _ => {},
        }
    }
}

proof fn lemma_rules_fit(rules: Seq<LifecycleRule>, f: ObjectFacts, now: int)
    ensures
        fits_the_version(rules_actions(rules, f, now), f),
    decreases rules.len(),
{
    if rules.len() > 0 {
        lemma_rules_fit(rules.drop_last(), f, now);
        lemma_rule_fits(rules.last(), f, now);
        lemma_fits_concat(rules_actions(rules.drop_last(), f, now), rule_actions(rules.last(), f, now), f);
    }
}

proof fn lemma_configured_fit(
    configs: Map<Seq<char>, LifecycleConfiguration>,
    names: Seq<Seq<char>>,
    f: ObjectFacts,
    now: int,
)
    ensures
        fits_the_version(configured_actions(configs, names, f, now), f),
    decreases names.len(),
{
    if names.len() > 0 {
        lemma_configured_fit(configs, names.drop_last(), f, now);
        lemma_rules_fit(configs[names.last()].rules@, f, now);
        lemma_fits_concat(
            configured_actions(configs, names.drop_last(), f, now),
            rules_actions(configs[names.last()].rules@, f, now),
            f,
        );
    }
}

/// Evaluating the current version of an object never calls for a non-current version
/// expiration or transition, and evaluating an object that is no delete marker never calls
/// for a delete-marker expiration, whatever the rules.
pub proof fn law_actions_fit_the_version(
    configs: Map<Seq<char>, LifecycleConfiguration>,
    names: Seq<Seq<char>>,
    f: ObjectFacts,
    now: int,
)
    ensures
        evaluation_outcome(configs, names, f, now) matches Ok(acts) ==> fits_the_version(acts, f),
{
    let b = bucket_of_key(f.key);
    if configs.dom().contains(b) {
        lemma_rules_fit(configs[b].rules@, f, now);
    } else {
        lemma_configured_fit(configs, names, f, now);
    }
}

/// A list of rules calls for exactly what one of its rules calls for.
#[verifier::spinoff_prover]
pub proof fn law_rules_call_for_what_a_rule_does(
    rules: Seq<LifecycleRule>,
    f: ObjectFacts,
    now: int,
    a: LifecycleActionView,
)
    ensures
        calls_for(rules_actions(rules, f, now), a) <==> exists|j: int|
            0 <= j < rules.len() && calls_for(rule_actions(#[trigger] rules[j], f, now), a),
    decreases rules.len(),
{
    if rules.len() > 0 {
        let front = rules.drop_last();
        law_rules_call_for_what_a_rule_does(front, f, now, a);
        lemma_calls_for_concat(rules_actions(front, f, now), rule_actions(rules.last(), f, now), a);
        if exists|j: int| 0 <= j < rules.len() && calls_for(rule_actions(#[trigger] rules[j], f, now), a) {
            let j = choose|j: int| 0 <= j < rules.len() && calls_for(rule_actions(#[trigger] rules[j], f, now), a);
            if j < front.len() {
                assert(front[j] == rules[j]);
            } else {
                assert(rules[j] == rules.last());
            }
        }
        if exists|j: int| 0 <= j < front.len() && calls_for(rule_actions(#[trigger] front[j], f, now), a) {
            let j = choose|j: int| 0 <= j < front.len() && calls_for(rule_actions(#[trigger] front[j], f, now), a);
            assert(rules[j] == front[j]);
        }
        if calls_for(rule_actions(rules.last(), f, now), a) {
            assert(rules[rules.len() - 1] == rules.last());
        }
    }
}

proof fn lemma_contains_concat<A>(x: Seq<A>, y: Seq<A>, a: A)
    ensures
        (x + y).contains(a) <==> (x.contains(a) || y.contains(a)),
{
    if (x + y).contains(a) {
        let i = choose|i: int| 0 <= i < (x + y).len() && (x + y)[i] == a;
        if i < x.len() {
            assert(x[i] == (x + y)[i]);
        } else {
            assert(y[i - x.len()] == (x + y)[i]);
        }
    }
    if x.contains(a) {
        let i = choose|i: int| 0 <= i < x.len() && x[i] == a;
        assert((x + y)[i] == x[i]);
    }
    if y.contains(a) {
        let i = choose|i: int| 0 <= i < y.len() && y[i] == a;
        assert((x + y)[x.len() + i] == y[i]);
    }
}

/// The transition gives days, and that many whole days have passed from `modified` to `now`.
pub open spec fn transition_due(
    t: crate::store_lifecycle::TransitionConfig,
    modified: crate::time::UtcTime,
    now: crate::time::UtcTime,
) -> bool {
    t.days matches Some(d) && days_passed(modified, d, now)
}

/// `days` whole days have passed from `from` to `now`.
pub open spec fn days_passed(from: crate::time::UtcTime, days: u32, now: crate::time::UtcTime) -> bool {
    from@ + days * 86_400_000_000_000 <= now@
}

#[verifier::spinoff_prover]
proof fn lemma_due_transitions_contains(
    ts: Seq<crate::store_lifecycle::TransitionConfig>,
    modified: crate::time::UtcTime,
    now: crate::time::UtcTime,
    x: Option<Seq<char>>,
)
    ensures
        crate::store_lifecycle::due_transitions(ts, modified, now).contains(x) <==> exists|j: int|
            0 <= j < ts.len() && transition_due(#[trigger] ts[j], modified, now)
                && x == Some(ts[j].storage_class@),
    decreases ts.len(),
{
    if ts.len() > 0 {
        let front = ts.drop_last();
        lemma_due_transitions_contains(front, modified, now, x);
        let tail = if ts.last().days matches Some(d) && crate::store_lifecycle::due(modified, d, now) {
            seq![Some(ts.last().storage_class@)]
        } else {
            Seq::<Option<Seq<char>>>::empty()
        };
        lemma_contains_concat(crate::store_lifecycle::due_transitions(front, modified, now), tail, x);
        if tail.contains(x) {
            assert(tail[0] == x);
            assert(ts[ts.len() - 1] == ts.last());
        }
        if exists|j: int|
            0 <= j < ts.len() && transition_due(#[trigger] ts[j], modified, now)
                && x == Some(ts[j].storage_class@) {
            let j = choose|j: int|
                0 <= j < ts.len() && transition_due(#[trigger] ts[j], modified, now)
                    && x == Some(ts[j].storage_class@);
            if j < front.len() {
                assert(front[j] == ts[j]);
            } else {
                assert(ts[j] == ts.last());
                assert(tail[0] == x);
            }
        }
        if exists|j: int|
            0 <= j < front.len() && transition_due(#[trigger] front[j], modified, now)
                && x == Some(front[j].storage_class@) {
            let j = choose|j: int|
                0 <= j < front.len() && transition_due(#[trigger] front[j], modified, now)
                    && x == Some(front[j].storage_class@);
            assert(ts[j] == front[j]);
        }
    }
}

/// What a storage rule plans for an object last modified at `modified`, at `now`: nothing
/// when the rule is disabled; otherwise a deletion exactly when its expiration gives days
/// that have passed, and a transition to a storage class exactly when one of its
/// transitions to that class gives days that have passed: every due transition is planned,
/// not only the first.
#[verifier::spinoff_prover]
pub proof fn law_due_actions_by_setting(
    rule: crate::store_lifecycle::LifecycleRule,
    modified: crate::time::UtcTime,
    now: crate::time::UtcTime,
)
    ensures
        rule.status == crate::store_lifecycle::RuleStatus::Disabled ==> crate::store_lifecycle::due_action_classes(
            rule,
            modified,
            now,
        ).len() == 0,
        rule.status == crate::store_lifecycle::RuleStatus::Enabled ==> {
            &&& crate::store_lifecycle::due_action_classes(rule, modified, now).contains(None) <==> (
            rule.expiration matches Some(e) && e.days matches Some(d) && days_passed(modified, d, now))
            &&& forall|c: Seq<char>|
                #![trigger crate::store_lifecycle::due_action_classes(rule, modified, now).contains(Some(c))]
                crate::store_lifecycle::due_action_classes(rule, modified, now).contains(Some(c)) <==> (
                rule.transitions matches Some(ts) && exists|j: int|
                    0 <= j < ts@.len() && transition_due(#[trigger] ts@[j], modified, now) && ts@[j].storage_class@ == c)
        },
{
    if rule.status == crate::store_lifecycle::RuleStatus::Enabled {
        let head = if rule.expiration matches Some(e) && e.days matches Some(d) && crate::store_lifecycle::due(
            modified,
            d,
            now,
        ) {
            seq![None::<Seq<char>>]
        } else {
            Seq::<Option<Seq<char>>>::empty()
        };
        let rest = match rule.transitions {
            Some(ts) => crate::store_lifecycle::due_transitions(ts@, modified, now),
            None => Seq::<Option<Seq<char>>>::empty(),
        };
        assert(crate::store_lifecycle::due_action_classes(rule, modified, now) == head + rest);
        lemma_contains_concat(head, rest, None);
        if let Some(ts) = rule.transitions {
            lemma_due_transitions_contains(ts@, modified, now, None);
        }
        if head.contains(None) {
            assert(head[0] == None::<Seq<char>>);
        }
        if rule.expiration matches Some(e) && e.days matches Some(d) && days_passed(modified, d, now) {
            assert(head[0] == None::<Seq<char>>);
        }
        assert forall|c: Seq<char>|
            #[trigger] crate::store_lifecycle::due_action_classes(rule, modified, now).contains(Some(c)) <==> (
            rule.transitions matches Some(ts) && exists|j: int|
                0 <= j < ts@.len() && transition_due(#[trigger] ts@[j], modified, now)
                    && ts@[j].storage_class@ == c) by {
            lemma_contains_concat(head, rest, Some(c));
            if head.contains(Some(c)) {
                let i = choose|i: int| 0 <= i < head.len() && head[i] == Some(c);
                assert(head[i] == None::<Seq<char>>);
            }
            if let Some(ts) = rule.transitions {
                lemma_due_transitions_contains(ts@, modified, now, Some(c));
            }
        }
    }
}

/// The rule sets at least one of the settings that make an action: an expiration (in days,
/// at a date, for expired delete markers or for all versions), a delete-marker expiration,
/// an all-versions expiration, a transition (in days or at a date), a non-current version
/// expiration or transition, or a multipart cleanup.
pub open spec fn sets_an_action(r: LifecycleRule) -> bool {
    r.expiration_days is Some || r.expiration_date is Some || r.expiration_expired_object_delete_marker is Some
        || r.expiration_expired_object_all_versions is Some || r.del_marker_expiration_days is Some
        || r.all_versions_expiration_days is Some || r.transition_days is Some || r.transition_date is Some
        || r.noncurrent_version_expiration_noncurrent_days is Some
        || r.noncurrent_version_transition_noncurrent_days is Some
        || r.abort_incomplete_multipart_upload_days_after_initiation is Some
}

/// A rule has an action exactly when it sets one of the action settings; in particular a
/// rule whose only setting is a non-current version expiration has one.
pub proof fn law_any_action_setting_counts(r: LifecycleRule)
    ensures
        r.spec_has_any_action() <==> sets_an_action(r),
        r.noncurrent_version_expiration_noncurrent_days is Some ==> r.spec_has_any_action(),
        r.noncurrent_version_transition_noncurrent_days is Some ==> r.spec_has_any_action(),
        r.del_marker_expiration_days is Some ==> r.spec_has_any_action(),
        r.abort_incomplete_multipart_upload_days_after_initiation is Some ==> r.spec_has_any_action(),
{
}

/// The rules meet every check: ids that are not empty, at most 255 bytes and distinct, no
/// expiration in days and at a date together, no transition in days and at a date together,
/// and an action setting in each.
pub open spec fn well_made_rules(rules: Seq<LifecycleRule>) -> bool {
    &&& forall|i: int|
        0 <= i < rules.len() ==> {
            let r = #[trigger] rules[i];
            &&& r.id@.len() > 0
            &&& crate::value_objects::byte_len(r.id@) <= 255
            &&& !(r.expiration_days is Some && r.expiration_date is Some)
            &&& !(r.transition_days is Some && r.transition_date is Some)
            &&& sets_an_action(r)
        }
    &&& forall|i: int, j: int| 0 <= i < j < rules.len() ==> (#[trigger] rules[i]).id@ != (#[trigger] rules[j]).id@
}

/// A configuration whose rules meet every check validates: nothing is found, so setting it
/// stores it. A rule whose only action is a non-current version expiration is accepted.
pub proof fn law_well_made_configuration_validates(c: LifecycleConfiguration)
    requires
        well_made_rules(c.rules@),
    ensures
        crate::lifecycle_service::config_findings(c).len() == 0,
        findings_of_rules(c.rules@).len() == 0,
{
    lemma_well_made_rules_validate(c.rules@);
}

proof fn lemma_well_made_rules_validate(rules: Seq<LifecycleRule>)
    requires
        well_made_rules(rules),
    ensures
        crate::lifecycle::rules_validation_error(rules) is None,
        rule_findings(rules).len() == 0,
    decreases rules.len(),
{
    if rules.len() > 0 {
        let front = rules.drop_last();
        assert(well_made_rules(front)) by {
            assert forall|i: int| 0 <= i < front.len() implies #[trigger] front[i] == rules[i] by {}
        }
        lemma_well_made_rules_validate(front);
        let last = rules.last();
        assert(last == rules[rules.len() - 1]);
        assert(!crate::lifecycle::id_seen_before(rules, rules.len() - 1)) by {
            if crate::lifecycle::id_seen_before(rules, rules.len() - 1) {
                let j = choose|j: int| 0 <= j < rules.len() - 1 && (#[trigger] rules[j]).id@ == rules[rules.len() - 1].id@;
                assert(rules[j].id@ != rules[rules.len() - 1].id@);
            }
        }
        assert(last.validation_error() is None);
    }
}

/// Enabling or disabling a rule that succeeds leaves the bucket with as many rules as
/// before, one of them with that id now holding the new status, and the other buckets as
/// they were; a refused change changes nothing, and a bucket with no configuration is
/// always refused.
#[verifier::spinoff_prover]
pub proof fn law_status_change_takes_effect(
    before: Map<Seq<char>, LifecycleConfiguration>,
    after: Map<Seq<char>, LifecycleConfiguration>,
    bucket: Seq<char>,
    id: Seq<char>,
    status: RuleStatus,
    r: Result<(), crate::errors::LifecycleError>,
)
    requires
        crate::lifecycle_service::rule_status_set(before, after, bucket, id, status, r),
    ensures
        !before.dom().contains(bucket) ==> r is Err,
        r is Err ==> after == before,
        r is Ok ==> {
            &&& after.dom().contains(bucket)
            &&& after[bucket].rules@.len() == before[bucket].rules@.len()
            &&& exists|j: int|
                0 <= j < after[bucket].rules@.len() && (#[trigger] after[bucket].rules@[j]).id@ == id
                    && after[bucket].rules@[j].status == status
            &&& forall|b: Seq<char>| b != bucket && #[trigger] after.dom().contains(b) ==> after[b] == before[b]
        },
{
    if before.dom().contains(bucket) {
        crate::lifecycle_repository::lemma_first_rule_with_id_bounds(before[bucket].rules@, id);
        if let Some(i) = crate::lifecycle_repository::first_rule_with_id(before[bucket].rules@, id) {
            if r is Ok {
                assert(after[bucket].rules@[i].id@ == id);
            }
        }
    }
}

/// Adding a rule that succeeds appends it after the bucket's former rules, which stay as
/// they were, when no former rule had its id; other buckets keep their configurations. A
/// refused addition changes nothing.
#[verifier::spinoff_prover]
pub proof fn law_added_rule_is_appended(
    before: Map<Seq<char>, LifecycleConfiguration>,
    after: Map<Seq<char>, LifecycleConfiguration>,
    bucket: Seq<char>,
    rule: LifecycleRule,
    r: Result<(), crate::errors::LifecycleError>,
)
    requires
        crate::lifecycle_service::rule_added(before, after, bucket, rule, r),
    ensures
        r is Err ==> after == before,
        r is Ok ==> {
            let old = if before.dom().contains(bucket) { before[bucket].rules@ } else { Seq::<LifecycleRule>::empty() };
            &&& forall|j: int| 0 <= j < old.len() ==> (#[trigger] old[j]).id@ != rule.id@
            &&& after.dom().contains(bucket)
            &&& after[bucket].rules@.len() == old.len() + 1
            &&& after[bucket].rules@[old.len() as int].same_as(rule)
            &&& forall|j: int| 0 <= j < old.len() ==> (#[trigger] after[bucket].rules@[j]).same_as(old[j])
            &&& forall|b: Seq<char>| b != bucket && #[trigger] after.dom().contains(b) ==> after[b] == before[b]
        },
{
    let old = crate::lifecycle_service::bucket_rules(before, bucket);
    if r is Ok {
        let added = old.push(rule);
        assert(after[bucket].rules@[old.len() as int].same_as(added[old.len() as int]));
        assert forall|j: int| 0 <= j < old.len() implies (#[trigger] after[bucket].rules@[j]).same_as(old[j]) by {
            assert(after[bucket].rules@[j].same_as(added[j]));
        }
        assert forall|j: int| 0 <= j < old.len() implies (#[trigger] old[j]).id@ != rule.id@ by {
            if old[j].id@ == rule.id@ {
                assert(crate::lifecycle_service::has_rule_id(old, rule.id@));
            }
        }
    }
}

proof fn lemma_without_id_excludes(rules: Seq<LifecycleRule>, id: Seq<char>)
    ensures
        forall|j: int| 0 <= j < without_id(rules, id).len() ==> (#[trigger] without_id(rules, id)[j]).id@ != id,
        without_id(rules, id).len() <= rules.len(),
    decreases rules.len(),
{
    if rules.len() > 0 {
        lemma_without_id_excludes(rules.drop_last(), id);
        let kf = without_id(rules.drop_last(), id);
        assert forall|j: int| 0 <= j < without_id(rules, id).len() implies (#[trigger] without_id(rules, id)[j]).id@ != id by {
            if j < kf.len() {
                assert(without_id(rules, id)[j] == kf[j]);
            }
        }
    }
}

/// Removing a rule that succeeds leaves no rule with that id in the bucket (the bucket's
/// configuration goes when no rule is left) and fewer rules than before; other buckets keep
/// their configurations. A refused removal changes nothing.
#[verifier::spinoff_prover]
pub proof fn law_removed_rule_is_gone(
    before: Map<Seq<char>, LifecycleConfiguration>,
    after: Map<Seq<char>, LifecycleConfiguration>,
    bucket: Seq<char>,
    id: Seq<char>,
    r: Result<(), crate::errors::LifecycleError>,
)
    requires
        crate::lifecycle_service::rule_removed(before, after, bucket, id, r),
    ensures
        r is Err ==> after == before,
        r is Ok && after.dom().contains(bucket) ==> {
            &&& forall|j: int| 0 <= j < after[bucket].rules@.len() ==> (#[trigger] after[bucket].rules@[j]).id@ != id
            &&& after[bucket].rules@.len() < before[bucket].rules@.len()
        },
        r is Ok ==> forall|b: Seq<char>| b != bucket && #[trigger] after.dom().contains(b) ==> after[b] == before[b],
{
    let old = crate::lifecycle_service::bucket_rules(before, bucket);
    lemma_without_id_excludes(old, id);
    let kept = without_id(old, id);
    if r is Ok && before.dom().contains(bucket) && crate::lifecycle_service::has_rule_id(old, id) {
        let i = choose|i: int| 0 <= i < old.len() && (#[trigger] old[i]).id@ == id;
        lemma_without_id_shorter(old, id, i);
        if after.dom().contains(bucket) && kept.len() > 0 {
            assert forall|j: int| 0 <= j < after[bucket].rules@.len() implies (#[trigger] after[bucket].rules@[j]).id@ != id by {
                assert(after[bucket].rules@[j].same_as(kept[j]));
            }
        }
    }
}

proof fn lemma_without_id_shorter(rules: Seq<LifecycleRule>, id: Seq<char>, i: int)
    requires
        0 <= i < rules.len(),
        rules[i].id@ == id,
    ensures
        without_id(rules, id).len() < rules.len(),
    decreases rules.len(),
{
    lemma_without_id_excludes(rules.drop_last(), id);
    if i < rules.len() - 1 {
        assert(rules.drop_last()[i] == rules[i]);
        lemma_without_id_shorter(rules.drop_last(), id, i);
    }
}

/// Setting a configuration that succeeds stores it for the bucket: the same rules in the
/// same order, with the same ids, statuses and settings; other buckets keep theirs. A
/// refused setting changes nothing.
pub proof fn law_set_configuration_is_stored(
    before: Map<Seq<char>, LifecycleConfiguration>,
    after: Map<Seq<char>, LifecycleConfiguration>,
    bucket: Seq<char>,
    config: LifecycleConfiguration,
    r: Result<(), crate::errors::LifecycleError>,
)
    requires
        crate::lifecycle_service::configuration_set(before, after, bucket, config, r),
    ensures
        r is Err ==> after == before,
        r is Ok ==> {
            &&& after.dom().contains(bucket)
            &&& after[bucket].rules@.len() == config.rules@.len()
            &&& forall|j: int|
                0 <= j < config.rules@.len() ==> (#[trigger] after[bucket].rules@[j]).id@ == config.rules@[j].id@
                    && after[bucket].rules@[j].status == config.rules@[j].status
                    && after[bucket].rules@[j].same_as(config.rules@[j])
            &&& forall|b: Seq<char>| b != bucket && #[trigger] after.dom().contains(b) ==> after[b] == before[b]
        },
{
}

/// An object passes a filter exactly when its key begins with the filter's prefix (when one
/// is set), it carries every tag of the filter with the filter's value, and its size is
/// above the lower bound and below the upper bound that are set.
#[verifier::spinoff_prover]
pub proof fn law_filter_passes_exactly(
    filter: crate::filter::Filter,
    key: Seq<char>,
    tags: Map<Seq<char>, Seq<char>>,
    size: u64,
)
    ensures
        filter.spec_matches(key, tags, size) <==> {
            &&& (filter.prefix matches Some(p) ==> (p@.len() <= key.len() && forall|i: int|
                0 <= i < p@.len() ==> #[trigger] key[i] == p@[i]))
            &&& (forall|t: Seq<char>| #[trigger] filter.tags@.dom().contains(t) ==> tags.dom().contains(t)
                && tags[t] == filter.tags@[t])
            &&& (filter.object_size_greater_than matches Some(min) ==> size > min)
            &&& (filter.object_size_less_than matches Some(max) ==> size < max)
        },
{
    if let Some(p) = filter.prefix {
        if p@.len() <= key.len() && forall|i: int| 0 <= i < p@.len() ==> #[trigger] key[i] == p@[i] {
            assert(key.subrange(0, p@.len() as int) =~= p@);
        }
        if crate::text::has_prefix(key, p@) {
            assert forall|i: int| 0 <= i < p@.len() implies #[trigger] key[i] == p@[i] by {
                assert(key.subrange(0, p@.len() as int)[i] == key[i]);
            }
        }
    }
}

/// The entry names the object's path, the rule's id and an action that the rule has due on
/// the object at `now` (the object's modification time being in range).
pub open spec fn due_for_object(
    rule: crate::store_lifecycle::LifecycleRule,
    o: crate::memory_store::ListedObject,
    now: crate::time::UtcTime,
    e: (Seq<char>, Seq<char>, Option<Seq<char>>),
) -> bool {
    &&& e.0 == o.location@
    &&& e.1 == rule.id@
    &&& match crate::store_lifecycle::listed_time(o) {
        Some(t) => crate::store_lifecycle::due_action_classes(rule, t, now).contains(e.2),
        None => false,
    }
}

proof fn lemma_object_plan_contains(
    rule: crate::store_lifecycle::LifecycleRule,
    o: crate::memory_store::ListedObject,
    now: crate::time::UtcTime,
    e: (Seq<char>, Seq<char>, Option<Seq<char>>),
)
    ensures
        crate::store_lifecycle::object_plan(rule, o, now).contains(e) <==> due_for_object(rule, o, now, e),
{
    if let Some(t) = crate::store_lifecycle::listed_time(o) {
        let cs = crate::store_lifecycle::due_action_classes(rule, t, now);
        let plan = crate::store_lifecycle::object_plan(rule, o, now);
        if plan.contains(e) {
            let i = choose|i: int| 0 <= i < plan.len() && plan[i] == e;
            assert(plan[i] == (o.location@, rule.id@, cs[i]));
        }
        if e.0 == o.location@ && e.1 == rule.id@ && cs.contains(e.2) {
            let i = choose|i: int| 0 <= i < cs.len() && cs[i] == e.2;
            assert(plan[i] == e);
        }
    }
}

proof fn lemma_rule_plan_contains(
    rule: crate::store_lifecycle::LifecycleRule,
    listing: Seq<crate::memory_store::ListedObject>,
    now: crate::time::UtcTime,
    e: (Seq<char>, Seq<char>, Option<Seq<char>>),
)
    ensures
        crate::store_lifecycle::rule_plan(rule, listing, now).contains(e) <==> exists|k: int|
            0 <= k < listing.len() && crate::store_lifecycle::object_plan(rule, #[trigger] listing[k], now).contains(e),
    decreases listing.len(),
{
    if listing.len() > 0 {
        let front = listing.drop_last();
        lemma_rule_plan_contains(rule, front, now, e);
        lemma_contains_concat(
            crate::store_lifecycle::rule_plan(rule, front, now),
            crate::store_lifecycle::object_plan(rule, listing.last(), now),
            e,
        );
        if exists|k: int| 0 <= k < listing.len() && crate::store_lifecycle::object_plan(rule, #[trigger] listing[k], now).contains(e) {
            let k = choose|k: int| 0 <= k < listing.len() && crate::store_lifecycle::object_plan(rule, #[trigger] listing[k], now).contains(e);
            if k < front.len() {
                assert(front[k] == listing[k]);
            } else {
                assert(listing[k] == listing.last());
            }
        }
        if exists|k: int| 0 <= k < front.len() && crate::store_lifecycle::object_plan(rule, #[trigger] front[k], now).contains(e) {
            let k = choose|k: int| 0 <= k < front.len() && crate::store_lifecycle::object_plan(rule, #[trigger] front[k], now).contains(e);
            assert(listing[k] == front[k]);
        }
        if crate::store_lifecycle::object_plan(rule, listing.last(), now).contains(e) {
            assert(listing[listing.len() - 1] == listing.last());
        }
    }
}

/// The plan holds an entry for a path, a rule and an action exactly when some rule with
/// that id lists an object at that path, whose modification time is in range, for which
/// the rule has that action due at `now`: every listed object of every rule is considered.
#[verifier::spinoff_prover]
pub proof fn law_plan_covers_every_listed_object(
    rules: Seq<crate::store_lifecycle::LifecycleRule>,
    listings: Seq<Seq<crate::memory_store::ListedObject>>,
    now: crate::time::UtcTime,
    e: (Seq<char>, Seq<char>, Option<Seq<char>>),
)
    requires
        listings.len() == rules.len(),
    ensures
        crate::store_lifecycle::config_plan(rules, listings, now).contains(e) <==> exists|i: int, k: int|
            0 <= i < rules.len() && 0 <= k < listings[i].len() && due_for_object(#[trigger] rules[i], #[trigger] listings[i][k], now, e),
    decreases rules.len(),
{
    if rules.len() > 0 {
        let rf = rules.drop_last();
        let lf = listings.drop_last();
        law_plan_covers_every_listed_object(rf, lf, now, e);
        let last_rule = rules.last();
        let last_listing = listings.last();
        lemma_contains_concat(
            crate::store_lifecycle::config_plan(rf, lf, now),
            crate::store_lifecycle::rule_plan(last_rule, last_listing, now),
            e,
        );
        lemma_rule_plan_contains(last_rule, last_listing, now, e);
        assert forall|k: int| 0 <= k < last_listing.len() implies (
            crate::store_lifecycle::object_plan(last_rule, #[trigger] last_listing[k], now).contains(e) <==> due_for_object(last_rule, last_listing[k], now, e)) by {
            lemma_object_plan_contains(last_rule, last_listing[k], now, e);
        }
        let n = rules.len() - 1;
        assert(rules[n] == last_rule);
        assert(listings[n] == last_listing);
        if exists|i: int, k: int|
            0 <= i < rules.len() && 0 <= k < listings[i].len() && due_for_object(#[trigger] rules[i], #[trigger] listings[i][k], now, e) {
            let (i, k) = choose|i: int, k: int|
                0 <= i < rules.len() && 0 <= k < listings[i].len() && due_for_object(#[trigger] rules[i], #[trigger] listings[i][k], now, e);
            if i < n {
                assert(rf[i] == rules[i]);
                assert(lf[i] == listings[i]);
            } else {
                lemma_object_plan_contains(last_rule, last_listing[k], now, e);
            }
        }
        if exists|i: int, k: int|
            0 <= i < rf.len() && 0 <= k < lf[i].len() && due_for_object(#[trigger] rf[i], #[trigger] lf[i][k], now, e) {
            let (i, k) = choose|i: int, k: int|
                0 <= i < rf.len() && 0 <= k < lf[i].len() && due_for_object(#[trigger] rf[i], #[trigger] lf[i][k], now, e);
            assert(rules[i] == rf[i]);
            assert(listings[i] == lf[i]);
        }
    }
}

} // verus!
