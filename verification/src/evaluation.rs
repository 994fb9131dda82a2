use vstd::prelude::*;
use vstd::string::*;

use crate::errors::{debug_str, str_debug};
use crate::lifecycle::{
    action_view, opt_time_wf, rules_wf, same_rules, ApplicableAction, EvaluateLifecycleRequest,
    LifecycleAction, LifecycleActionView, LifecycleRule, RuleStatus, StorageClass,
    StorageClassView,
};
use crate::text::{concat_str, decimal, push_decimal, push_str};
use crate::time::{
    elapsed_secs, elapsed_whole_secs, utc_debug, utc_debug_text, utc_display, utc_display_text,
    UtcTime,
};

verus! {

/// An action with the id of the rule that calls for it and the reason, as plain values.
pub struct ActionModel {
    pub rule_id: Seq<char>,
    pub action: LifecycleActionView,
    pub reason: Seq<char>,
}

/// The model of an applicable action.
pub open spec fn action_model(a: ApplicableAction) -> ActionModel {
    ActionModel { rule_id: a.rule_id@, action: action_view(a.action), reason: a.reason@ }
}

/// The models of a list of applicable actions.
pub open spec fn action_models(v: Seq<ApplicableAction>) -> Seq<ActionModel> {
    v.map_values(|a: ApplicableAction| action_model(a))
}

/// What evaluation reads of an object: its key, tags and creation time, and whether it is a
/// delete marker and the current version.
pub struct ObjectFacts {
    pub key: Seq<char>,
    pub tags: Map<Seq<char>, Seq<char>>,
    pub created: int,
    pub is_delete_marker: bool,
    pub is_current_version: bool,
}

/// The facts of an evaluation request.
pub open spec fn request_facts(req: EvaluateLifecycleRequest) -> ObjectFacts {
    ObjectFacts {
        key: req.key@,
        tags: req.object_tags@,
        created: req.object_created_at@,
        is_delete_marker: req.is_delete_marker,
        is_current_version: req.is_current_version,
    }
}

/// The object created at `created` is at least `days` whole days old at `now` (its age in
/// whole seconds, zero when created in the future, reaches `days` times 86400).
pub open spec fn old_enough(created: int, now: int, days: u32) -> bool {
    elapsed_secs(created, now) >= days * 86400
}

/// `text` followed by the decimal of `n` and `tail`.
pub open spec fn with_number(text: Seq<char>, n: u32, tail: Seq<char>) -> Seq<char> {
    text + decimal(n as nat) + tail
}

/// Expiration by age.
#[verifier::opaque]
pub open spec fn expiration_days_action(rule: LifecycleRule, f: ObjectFacts, now: int) -> Seq<
    ActionModel,
> {
    match rule.expiration_days {
        Some(days) => if old_enough(f.created, now, days) {
            seq![
                ActionModel {
                    rule_id: rule.id@,
                    action: LifecycleActionView::Expiration { days: Some(days), date: None },
                    reason: with_number("Object is "@, days, " days old"@),
                },
            ]
        } else {
            Seq::empty()
        },
        None => Seq::empty(),
    }
}

/// Expiration at a date.
#[verifier::opaque]
pub open spec fn expiration_date_action(rule: LifecycleRule, now: int) -> Seq<ActionModel> {
    match rule.expiration_date {
        Some(date) => if now >= date@ {
            seq![
                ActionModel {
                    rule_id: rule.id@,
                    action: LifecycleActionView::Expiration { days: None, date: Some(date@) },
                    reason: "Object scheduled to expire on "@ + utc_display_text(
                        date.spec_secs() as i64,
                        date.spec_nanos() as u32,
                    ),
                },
            ]
        } else {
            Seq::empty()
        },
        None => Seq::empty(),
    }
}

/// Transition by age, when the rule names a storage class.
#[verifier::opaque]
pub open spec fn transition_action(rule: LifecycleRule, f: ObjectFacts, now: int) -> Seq<
    ActionModel,
> {
    match (rule.transition_days, rule.transition_storage_class) {
        (Some(days), Some(class)) => if old_enough(f.created, now, days) {
            seq![
                ActionModel {
                    rule_id: rule.id@,
                    action: LifecycleActionView::Transition {
                        days: Some(days),
                        date: None,
                        storage_class: class@,
                    },
                    reason: "Object should transition to "@ + class@.name() + with_number(
                        " after "@,
                        days,
                        " days"@,
                    ),
                },
            ]
        } else {
            Seq::empty()
        },
        _ => Seq::empty(),
    }
}

/// Expiration of a delete marker by age.
#[verifier::opaque]
pub open spec fn delete_marker_action(rule: LifecycleRule, f: ObjectFacts, now: int) -> Seq<
    ActionModel,
> {
    match rule.del_marker_expiration_days {
        Some(days) => if f.is_delete_marker && old_enough(f.created, now, days) {
            seq![
                ActionModel {
                    rule_id: rule.id@,
                    action: LifecycleActionView::ExpireDeleteMarker { days },
                    reason: with_number("Delete marker is "@, days, " days old"@),
                },
            ]
        } else {
            Seq::empty()
        },
        None => Seq::empty(),
    }
}

/// Expiration of a non-current version by age.
#[verifier::opaque]
pub open spec fn noncurrent_expiration_action(
    rule: LifecycleRule,
    f: ObjectFacts,
    now: int,
) -> Seq<ActionModel> {
    match rule.noncurrent_version_expiration_noncurrent_days {
        Some(days) => if !f.is_current_version && old_enough(f.created, now, days) {
            seq![
                ActionModel {
                    rule_id: rule.id@,
                    action: LifecycleActionView::NonCurrentVersionExpiration { days },
                    reason: with_number("Non-current version is "@, days, " days old"@),
                },
            ]
        } else {
            Seq::empty()
        },
        None => Seq::empty(),
    }
}

/// Transition of a non-current version by age, when the rule names a storage class.
#[verifier::opaque]
pub open spec fn noncurrent_transition_action(
    rule: LifecycleRule,
    f: ObjectFacts,
    now: int,
) -> Seq<ActionModel> {
    match (
        rule.noncurrent_version_transition_noncurrent_days,
        rule.noncurrent_version_transition_storage_class,
    ) {
        (Some(days), Some(class)) => if !f.is_current_version && old_enough(
            f.created,
            now,
            days,
        ) {
            seq![
                ActionModel {
                    rule_id: rule.id@,
                    action: LifecycleActionView::NonCurrentVersionTransition {
                        days,
                        storage_class: class@,
                    },
                    reason: with_number(
                        "Non-current version should transition after "@,
                        days,
                        " days"@,
                    ),
                },
            ]
        } else {
            Seq::empty()
        },
        _ => Seq::empty(),
    }
}

/// Cleanup of incomplete multipart uploads, whenever the rule sets it.
#[verifier::opaque]
pub open spec fn abort_multipart_action(rule: LifecycleRule) -> Seq<ActionModel> {
    match rule.abort_incomplete_multipart_upload_days_after_initiation {
        Some(days) => seq![
            ActionModel {
                rule_id: rule.id@,
                action: LifecycleActionView::AbortIncompleteMultipartUpload {
                    days_after_initiation: days,
                },
                reason: with_number("Cleanup incomplete uploads after "@, days, " days"@),
            },
        ],
        None => Seq::empty(),
    }
}

/// The rule is enabled and its filter passes the object (taken with size 0).
pub open spec fn rule_applies(rule: LifecycleRule, f: ObjectFacts) -> bool {
    rule.status == RuleStatus::Enabled && rule.filter.spec_matches(f.key, f.tags, 0)
}

/// The actions that one rule calls for on the object, in the order they are checked:
/// expiration by age, expiration by date, transition by age, delete-marker expiration,
/// non-current version expiration, non-current version transition, and abort of incomplete
/// multipart uploads. A rule that does not apply calls for none.
pub open spec fn rule_actions(rule: LifecycleRule, f: ObjectFacts, now: int) -> Seq<
    ActionModel,
> {
    if !rule_applies(rule, f) {
        Seq::empty()
    } else {
        expiration_days_action(rule, f, now) + expiration_date_action(rule, now)
            + transition_action(rule, f, now) + delete_marker_action(rule, f, now)
            + noncurrent_expiration_action(rule, f, now) + noncurrent_transition_action(
            rule,
            f,
            now,
        ) + abort_multipart_action(rule)
    }
}

/// The actions that a list of rules calls for, rule after rule.
pub open spec fn rules_actions(rules: Seq<LifecycleRule>, f: ObjectFacts, now: int) -> Seq<
    ActionModel,
>
    decreases rules.len(),
{
    if rules.len() == 0 {
        Seq::empty()
    } else {
        rules_actions(rules.drop_last(), f, now) + rule_actions(rules.last(), f, now)
    }
}

/// `text`, the decimal of `n`, then `tail`.
fn number_text(text: &str, n: u32, tail: &str) -> (r: String)
    ensures
        r@ == with_number(text@, n, tail@),
{
    let mut s = String::from_str(text);
    push_decimal(&mut s, n as u64);
    push_str(&mut s, tail);
    s
}

/// Whether the object created at `created` is at least `days` whole days old at `now`.
fn is_old_enough(created: &UtcTime, now: &UtcTime, days: u32) -> (r: bool)
    requires
        created.wf(),
        now.wf(),
    ensures
        r == old_enough(created@, now@, days),
{
    elapsed_whole_secs(created, now) >= (days as u64) * 86400
}

/// Appends one action.
fn push_action(
    out: &mut Vec<ApplicableAction>,
    rule_id: &String,
    action: LifecycleAction,
    reason: String,
)
    requires
        action_wf(action),
    ensures
        actions_wf(old(out)@) ==> actions_wf(final(out)@),
        action_models(final(out)@) == action_models(old(out)@).push(
            ActionModel { rule_id: rule_id@, action: action_view(action), reason: reason@ },
        ),
{
    let ghost before = out@;
    out.push(ApplicableAction { rule_id: rule_id.clone(), action, reason });
    assert(actions_wf(before) ==> actions_wf(out@)) by {
        if actions_wf(before) {
            assert forall|i: int| 0 <= i < out@.len() implies action_wf((#[trigger] out@[i]).action) by {
                if i < before.len() {
                    assert(out@[i] == before[i]);
                }
            }
        }
    }
    assert(action_models(out@) =~= action_models(before).push(
        ActionModel { rule_id: rule_id@, action: action_view(action), reason: reason@ },
    ));
}

/// Appends the expiration-by-age action, when due.
fn append_expiration_days(
    out: &mut Vec<ApplicableAction>,
    rule: &LifecycleRule,
    request: &EvaluateLifecycleRequest,
    now: &UtcTime,
)
    requires
        request.wf(),
        now.wf(),
    ensures
        actions_wf(old(out)@) ==> actions_wf(final(out)@),
        action_models(final(out)@) == action_models(old(out)@) + expiration_days_action(
            *rule,
            request_facts(*request),
            now@,
        ),
{
    proof {
        reveal(expiration_days_action);
    }
    if let Some(days) = rule.expiration_days {
        if is_old_enough(&request.object_created_at, now, days) {
            push_action(
                out,
                &rule.id,
                LifecycleAction::Expiration { days: Some(days), date: None },
                number_text("Object is ", days, " days old"),
            );
            return;
        }
    }
    assert(action_models(out@) + Seq::<ActionModel>::empty() =~= action_models(out@));
}

/// Appends the expiration-at-a-date action, when due.
fn append_expiration_date(out: &mut Vec<ApplicableAction>, rule: &LifecycleRule, now: &UtcTime)
    requires
        rule.wf(),
        now.wf(),
    ensures
        actions_wf(old(out)@) ==> actions_wf(final(out)@),
        action_models(final(out)@) == action_models(old(out)@) + expiration_date_action(
            *rule,
            now@,
        ),
{
    proof {
        reveal(expiration_date_action);
    }
    if let Some(date) = rule.expiration_date {
        if now.as_nanos() >= date.as_nanos() {
            let shown = utc_display(&date);
            push_action(
                out,
                &rule.id,
                LifecycleAction::Expiration { days: None, date: Some(date) },
                concat_str("Object scheduled to expire on ", shown.as_str()),
            );
            return;
        }
    }
    assert(action_models(out@) + Seq::<ActionModel>::empty() =~= action_models(out@));
}

/// Appends the transition action, when due.
fn append_transition(
    out: &mut Vec<ApplicableAction>,
    rule: &LifecycleRule,
    request: &EvaluateLifecycleRequest,
    now: &UtcTime,
)
    requires
        request.wf(),
        now.wf(),
    ensures
        actions_wf(old(out)@) ==> actions_wf(final(out)@),
        action_models(final(out)@) == action_models(old(out)@) + transition_action(
            *rule,
            request_facts(*request),
            now@,
        ),
{
    proof {
        reveal(transition_action);
    }
    if let Some(days) = rule.transition_days {
        if let Some(class) = &rule.transition_storage_class {
            if is_old_enough(&request.object_created_at, now, days) {
                let mut reason = concat_str("Object should transition to ", class.as_str());
                let tail = number_text(" after ", days, " days");
                push_str(&mut reason, tail.as_str());
                push_action(
                    out,
                    &rule.id,
                    LifecycleAction::Transition {
                        days: Some(days),
                        date: None,
                        storage_class: class.clone(),
                    },
                    reason,
                );
                return;
            }
        }
    }
    assert(action_models(out@) + Seq::<ActionModel>::empty() =~= action_models(out@));
}

/// Appends the delete-marker expiration action, when due.
fn append_delete_marker(
    out: &mut Vec<ApplicableAction>,
    rule: &LifecycleRule,
    request: &EvaluateLifecycleRequest,
    now: &UtcTime,
)
    requires
        request.wf(),
        now.wf(),
    ensures
        actions_wf(old(out)@) ==> actions_wf(final(out)@),
        action_models(final(out)@) == action_models(old(out)@) + delete_marker_action(
            *rule,
            request_facts(*request),
            now@,
        ),
{
    proof {
        reveal(delete_marker_action);
    }
    if let Some(days) = rule.del_marker_expiration_days {
        if request.is_delete_marker && is_old_enough(&request.object_created_at, now, days) {
            push_action(
                out,
                &rule.id,
                LifecycleAction::ExpireDeleteMarker { days },
                number_text("Delete marker is ", days, " days old"),
            );
            return;
        }
    }
    assert(action_models(out@) + Seq::<ActionModel>::empty() =~= action_models(out@));
}

/// Appends the non-current version expiration action, when due.
fn append_noncurrent_expiration(
    out: &mut Vec<ApplicableAction>,
    rule: &LifecycleRule,
    request: &EvaluateLifecycleRequest,
    now: &UtcTime,
)
    requires
        request.wf(),
        now.wf(),
    ensures
        actions_wf(old(out)@) ==> actions_wf(final(out)@),
        action_models(final(out)@) == action_models(old(out)@) + noncurrent_expiration_action(
            *rule,
            request_facts(*request),
            now@,
        ),
{
    proof {
        reveal(noncurrent_expiration_action);
    }
    if let Some(days) = rule.noncurrent_version_expiration_noncurrent_days {
        if !request.is_current_version && is_old_enough(&request.object_created_at, now, days) {
            push_action(
                out,
                &rule.id,
                LifecycleAction::NonCurrentVersionExpiration { days },
                number_text("Non-current version is ", days, " days old"),
            );
            return;
        }
    }
    assert(action_models(out@) + Seq::<ActionModel>::empty() =~= action_models(out@));
}

/// Appends the non-current version transition action, when due.
fn append_noncurrent_transition(
    out: &mut Vec<ApplicableAction>,
    rule: &LifecycleRule,
    request: &EvaluateLifecycleRequest,
    now: &UtcTime,
)
    requires
        request.wf(),
        now.wf(),
    ensures
        actions_wf(old(out)@) ==> actions_wf(final(out)@),
        action_models(final(out)@) == action_models(old(out)@) + noncurrent_transition_action(
            *rule,
            request_facts(*request),
            now@,
        ),
{
    proof {
        reveal(noncurrent_transition_action);
    }
    if let Some(days) = rule.noncurrent_version_transition_noncurrent_days {
        if let Some(class) = &rule.noncurrent_version_transition_storage_class {
            if !request.is_current_version && is_old_enough(&request.object_created_at, now, days) {
                push_action(
                    out,
                    &rule.id,
                    LifecycleAction::NonCurrentVersionTransition {
                        days,
                        storage_class: class.clone(),
                    },
                    number_text("Non-current version should transition after ", days, " days"),
                );
                return;
            }
        }
    }
    assert(action_models(out@) + Seq::<ActionModel>::empty() =~= action_models(out@));
}

/// Appends the multipart-upload cleanup action, when the rule sets one.
fn append_abort_multipart(out: &mut Vec<ApplicableAction>, rule: &LifecycleRule)
    ensures
        actions_wf(old(out)@) ==> actions_wf(final(out)@),
        action_models(final(out)@) == action_models(old(out)@) + abort_multipart_action(*rule),
{
    proof {
        reveal(abort_multipart_action);
    }
    if let Some(days) = rule.abort_incomplete_multipart_upload_days_after_initiation {
        push_action(
            out,
            &rule.id,
            LifecycleAction::AbortIncompleteMultipartUpload { days_after_initiation: days },
            number_text("Cleanup incomplete uploads after ", days, " days"),
        );
        return;
    }
    assert(action_models(out@) + Seq::<ActionModel>::empty() =~= action_models(out@));
}

/// Appends the actions that one rule calls for on the object.
pub fn append_rule_actions(
    out: &mut Vec<ApplicableAction>,
    rule: &LifecycleRule,
    request: &EvaluateLifecycleRequest,
    now: &UtcTime,
)
    requires
        rule.wf(),
        request.wf(),
        now.wf(),
    ensures
        actions_wf(old(out)@) ==> actions_wf(final(out)@),
        action_models(final(out)@) == action_models(old(out)@) + rule_actions(*rule, request_facts(*request), now@),
{
    let ghost start = action_models(out@);
    if rule.status != RuleStatus::Enabled || !rule.matches(&request.key, &request.object_tags, 0) {
        assert(start + Seq::<ActionModel>::empty() =~= start);
        return;
    }
    append_expiration_days(out, rule, request, now);
    append_expiration_date(out, rule, now);
    append_transition(out, rule, request, now);
    append_delete_marker(out, rule, request, now);
    append_noncurrent_expiration(out, rule, request, now);
    append_noncurrent_transition(out, rule, request, now);
    append_abort_multipart(out, rule);
    proof {
        let f = request_facts(*request);
        let p1 = expiration_days_action(*rule, f, now@);
        let p2 = expiration_date_action(*rule, now@);
        let p3 = transition_action(*rule, f, now@);
        let p4 = delete_marker_action(*rule, f, now@);
        let p5 = noncurrent_expiration_action(*rule, f, now@);
        let p6 = noncurrent_transition_action(*rule, f, now@);
        let p7 = abort_multipart_action(*rule);
        assert(start + p1 + p2 + p3 + p4 + p5 + p6 + p7 =~= start + (p1 + p2 + p3 + p4 + p5 + p6
            + p7));
    }
}

/// The actions that the rules call for on the object at time `now`, rule after rule.
pub fn evaluate_rules(
    rules: &Vec<LifecycleRule>,
    request: &EvaluateLifecycleRequest,
    now: &UtcTime,
) -> (r: Vec<ApplicableAction>)
    requires
        rules_wf(rules@),
        request.wf(),
        now.wf(),
    ensures
        action_models(r@) == rules_actions(rules@, request_facts(*request), now@),
        actions_wf(r@),
{
    let mut out: Vec<ApplicableAction> = Vec::new();
    let mut i: usize = 0;
    assert(action_models(out@) =~= Seq::<ActionModel>::empty());
    assert(rules@.take(0) =~= Seq::<LifecycleRule>::empty());
    while i < rules.len()
        invariant
            i <= rules@.len(),
            rules_wf(rules@),
            request.wf(),
            now.wf(),
            action_models(out@) == rules_actions(rules@.take(i as int), request_facts(*request), now@),
            actions_wf(out@),
        decreases rules@.len() - i,
    {
        assert(rules@[i as int].wf());
        append_rule_actions(&mut out, &rules[i], request, now);
        assert(rules@.take(i + 1).drop_last() =~= rules@.take(i as int));
        assert(rules@.take(i + 1).last() == rules@[i as int]);
        i = i + 1;
    }
    assert(rules@.take(rules@.len() as int) =~= rules@);
    out
}

/// What `{:?}` writes for an optional number.
pub open spec fn opt_u32_debug(n: Option<u32>) -> Seq<char> {
    match n {
        Some(d) => "Some("@ + decimal(d as nat) + ")"@,
        None => "None"@,
    }
}

/// What `{:?}` writes for an optional instant.
pub open spec fn opt_time_debug(t: Option<UtcTime>) -> Seq<char> {
    match t {
        Some(d) => "Some("@ + utc_debug_text(d.spec_secs() as i64, d.spec_nanos() as u32) + ")"@,
        None => "None"@,
    }
}

/// What `{:?}` writes for a storage class.
pub open spec fn class_debug(c: StorageClassView) -> Seq<char> {
    match c {
        StorageClassView::Standard => "Standard"@,
        StorageClassView::InfrequentAccess => "InfrequentAccess"@,
        StorageClassView::Glacier => "Glacier"@,
        StorageClassView::DeepArchive => "DeepArchive"@,
        StorageClassView::Custom(s) => "Custom("@ + str_debug(s) + ")"@,
    }
}

/// What `{:?}` writes for a lifecycle action (the derived `Debug` form).
pub open spec fn action_debug_text(a: LifecycleAction) -> Seq<char> {
    match a {
        LifecycleAction::Expiration { days, date } => "Expiration { days: "@ + opt_u32_debug(days)
            + ", date: "@ + opt_time_debug(date) + " }"@,
        LifecycleAction::Transition { days, date, storage_class } => "Transition { days: "@
            + opt_u32_debug(days) + ", date: "@ + opt_time_debug(date) + ", storage_class: "@
            + class_debug(storage_class@) + " }"@,
        LifecycleAction::AbortIncompleteMultipartUpload { days_after_initiation } =>
            "AbortIncompleteMultipartUpload { days_after_initiation: "@ + decimal(
            days_after_initiation as nat,
        ) + " }"@,
        LifecycleAction::ExpireDeleteMarker { days } => "ExpireDeleteMarker { days: "@ + decimal(
            days as nat,
        ) + " }"@,
        LifecycleAction::NonCurrentVersionExpiration { days } =>
            "NonCurrentVersionExpiration { days: "@ + decimal(days as nat) + " }"@,
        LifecycleAction::NonCurrentVersionTransition { days, storage_class } =>
            "NonCurrentVersionTransition { days: "@ + decimal(days as nat) + ", storage_class: "@
            + class_debug(storage_class@) + " }"@,
    }
}

/// Appends what `{:?}` writes for an optional number.
fn push_opt_u32_debug(s: &mut String, n: Option<u32>)
    ensures
        final(s)@ == old(s)@ + opt_u32_debug(n),
{
    match n {
        Some(d) => {
            push_str(s, "Some(");
            push_decimal(s, d as u64);
            push_str(s, ")");
        },
        None => push_str(s, "None"),
    }
}

/// Appends what `{:?}` writes for an optional instant.
fn push_opt_time_debug(s: &mut String, t: &Option<UtcTime>)
    requires
        opt_time_wf(*t),
    ensures
        final(s)@ == old(s)@ + opt_time_debug(*t),
{
    match t {
        Some(d) => {
            push_str(s, "Some(");
            let text = utc_debug(d);
            push_str(s, text.as_str());
            push_str(s, ")");
        },
        None => push_str(s, "None"),
    }
}

/// Appends what `{:?}` writes for a storage class.
fn push_class_debug(s: &mut String, c: &StorageClass)
    ensures
        final(s)@ == old(s)@ + class_debug(c@),
{
    match c {
        StorageClass::Standard => push_str(s, "Standard"),
        StorageClass::InfrequentAccess => push_str(s, "InfrequentAccess"),
        StorageClass::Glacier => push_str(s, "Glacier"),
        StorageClass::DeepArchive => push_str(s, "DeepArchive"),
        StorageClass::Custom(name) => {
            push_str(s, "Custom(");
            let text = debug_str(name.as_str());
            push_str(s, text.as_str());
            push_str(s, ")");
        },
    }
}

/// All actions' dates lie in range.
pub open spec fn actions_wf(v: Seq<ApplicableAction>) -> bool {
    forall|i: int| 0 <= i < v.len() ==> action_wf((#[trigger] v[i]).action)
}

/// The actions' dates lie in range.
pub open spec fn action_wf(a: LifecycleAction) -> bool {
    match a {
        LifecycleAction::Expiration { date, .. } => opt_time_wf(date),
        LifecycleAction::Transition { date, .. } => opt_time_wf(date),
        _ => true,
    }
}

/// What `{:?}` writes for a lifecycle action.
pub fn action_debug(a: &LifecycleAction) -> (r: String)
    requires
        action_wf(*a),
    ensures
        r@ == action_debug_text(*a),
{
    let mut s = String::new();
    match a {
        LifecycleAction::Expiration { days, date } => {
            push_str(&mut s, "Expiration { days: ");
            push_opt_u32_debug(&mut s, *days);
            push_str(&mut s, ", date: ");
            push_opt_time_debug(&mut s, date);
            push_str(&mut s, " }");
        },
        LifecycleAction::Transition { days, date, storage_class } => {
            push_str(&mut s, "Transition { days: ");
            push_opt_u32_debug(&mut s, *days);
            push_str(&mut s, ", date: ");
            push_opt_time_debug(&mut s, date);
            push_str(&mut s, ", storage_class: ");
            push_class_debug(&mut s, storage_class);
            push_str(&mut s, " }");
        },
        LifecycleAction::AbortIncompleteMultipartUpload { days_after_initiation } => {
            push_str(&mut s, "AbortIncompleteMultipartUpload { days_after_initiation: ");
            push_decimal(&mut s, *days_after_initiation as u64);
            push_str(&mut s, " }");
        },
        LifecycleAction::ExpireDeleteMarker { days } => {
            push_str(&mut s, "ExpireDeleteMarker { days: ");
            push_decimal(&mut s, *days as u64);
            push_str(&mut s, " }");
        },
        LifecycleAction::NonCurrentVersionExpiration { days } => {
            push_str(&mut s, "NonCurrentVersionExpiration { days: ");
            push_decimal(&mut s, *days as u64);
            push_str(&mut s, " }");
        },
        LifecycleAction::NonCurrentVersionTransition { days, storage_class } => {
            push_str(&mut s, "NonCurrentVersionTransition { days: ");
            push_decimal(&mut s, *days as u64);
            push_str(&mut s, ", storage_class: ");
            push_class_debug(&mut s, storage_class);
            push_str(&mut s, " }");
        },
    }
    s
}

/// Rules with the same settings call for the same actions.
pub proof fn lemma_rule_actions_same(a: LifecycleRule, b: LifecycleRule, f: ObjectFacts, now: int)
    requires
        a.same_as(b),
    ensures
        rule_actions(a, f, now) == rule_actions(b, f, now),
{
    reveal(expiration_days_action);
    reveal(expiration_date_action);
    reveal(transition_action);
    reveal(delete_marker_action);
    reveal(noncurrent_expiration_action);
    reveal(noncurrent_transition_action);
    reveal(abort_multipart_action);
    assert(rule_applies(a, f) == rule_applies(b, f));
    assert(expiration_days_action(a, f, now) == expiration_days_action(b, f, now));
    assert(expiration_date_action(a, now) == expiration_date_action(b, now));
    assert(transition_action(a, f, now) == transition_action(b, f, now)) by {
        if a.transition_storage_class is Some {
            assert(a.transition_storage_class->0@ == b.transition_storage_class->0@);
        }
    }
    assert(delete_marker_action(a, f, now) == delete_marker_action(b, f, now));
    assert(noncurrent_expiration_action(a, f, now) == noncurrent_expiration_action(b, f, now));
    assert(noncurrent_transition_action(a, f, now) == noncurrent_transition_action(b, f, now)) by {
        if a.noncurrent_version_transition_storage_class is Some {
            assert(a.noncurrent_version_transition_storage_class->0@
                == b.noncurrent_version_transition_storage_class->0@);
        }
    }
    assert(abort_multipart_action(a) == abort_multipart_action(b));
}

/// Lists of rules with the same settings call for the same actions.
pub proof fn lemma_rules_actions_same(
    a: Seq<LifecycleRule>,
    b: Seq<LifecycleRule>,
    f: ObjectFacts,
    now: int,
)
    requires
        same_rules(a, b),
    ensures
        rules_actions(a, f, now) == rules_actions(b, f, now),
    decreases a.len(),
{
    if a.len() > 0 {
        assert(same_rules(a.drop_last(), b.drop_last())) by {
            assert forall|i: int| 0 <= i < a.drop_last().len() implies (
            #[trigger] a.drop_last()[i]).same_as(b.drop_last()[i]) by {
                assert(a[i].same_as(b[i]));
            }
        }
        lemma_rules_actions_same(a.drop_last(), b.drop_last(), f, now);
        lemma_rule_actions_same(a.last(), b.last(), f, now);
    }
}

} // verus!
