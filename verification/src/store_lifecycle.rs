use vstd::prelude::*;

use crate::keyed::{keyed_find, keyed_map, keyed_set, names_distinct};
use crate::store_error::StoreError;
use crate::tags::TagMap;
use crate::text::{concat_str, decimal, push_decimal, push_str};
use crate::memory_store::{is_listing_of, object_path, ListedObject};
use crate::time::{valid_instant, UtcTime, SECS_PER_DAY};
use crate::versioned_store::VersionedStore;

verus! {

/// What a storage lifecycle rule does to an object.
#[derive(Debug)]
pub enum LifecycleAction {
    Delete,
    Transition { storage_class: String },
}

/// Whether a storage lifecycle rule is applied.
#[derive(Debug, Clone, Copy, PartialEq, Eq, Structural)]
pub enum RuleStatus {
    Enabled,
    Disabled,
}

impl Default for RuleStatus {
    /// Rules are enabled unless said otherwise.
    fn default() -> (r: Self)
        ensures
            r == RuleStatus::Enabled,
    {
        RuleStatus::Enabled
    }
}

/// When objects expire.
#[derive(Debug, Clone, Copy)]
pub struct ExpirationConfig {
    pub days: Option<u32>,
    pub date: Option<UtcTime>,
    pub expired_object_delete_marker: Option<bool>,
}

/// When objects move to another storage class.
#[derive(Debug)]
pub struct TransitionConfig {
    pub days: Option<u32>,
    pub date: Option<UtcTime>,
    pub storage_class: String,
}

impl Clone for TransitionConfig {
    fn clone(&self) -> (r: Self)
        ensures
            r.days == self.days,
            r.date == self.date,
            r.storage_class@ == self.storage_class@,
    {
        TransitionConfig { days: self.days, date: self.date, storage_class: self.storage_class.clone() }
    }
}

/// A storage lifecycle rule: the objects under a prefix, what happens to them and when.
#[derive(Debug)]
pub struct LifecycleRule {
    pub id: String,
    pub prefix: String,
    pub status: RuleStatus,
    pub expiration: Option<ExpirationConfig>,
    pub transitions: Option<Vec<TransitionConfig>>,
    pub filter_tags: Option<TagMap>,
}

/// The rule lists of two rules hold the same settings.
pub open spec fn same_transitions(a: Seq<TransitionConfig>, b: Seq<TransitionConfig>) -> bool {
    a.len() == b.len() && forall|i: int|
        0 <= i < a.len() ==> (#[trigger] a[i]).days == b[i].days && a[i].date == b[i].date
            && a[i].storage_class@ == b[i].storage_class@
}

impl LifecycleRule {
    /// Two rules hold the same settings.
    pub open spec fn same_as(self, other: LifecycleRule) -> bool {
        &&& self.id@ == other.id@
        &&& self.prefix@ == other.prefix@
        &&& self.status == other.status
        &&& self.expiration == other.expiration
        &&& match (self.transitions, other.transitions) {
            (Some(a), Some(b)) => same_transitions(a@, b@),
            (None, None) => true,
            _ => false,
        }
        &&& match (self.filter_tags, other.filter_tags) {
            (Some(a), Some(b)) => a@ == b@,
            (None, None) => true,
            _ => false,
        }
    }
}

fn clone_transitions(v: &Vec<TransitionConfig>) -> (r: Vec<TransitionConfig>)
    ensures
        same_transitions(r@, v@),
{
    let mut r: Vec<TransitionConfig> = Vec::new();
    let mut i: usize = 0;
    while i < v.len()
        invariant
            i <= v@.len(),
            r@.len() == i,
            forall|k: int|
                0 <= k < i ==> (#[trigger] r@[k]).days == v@[k].days && r@[k].date == v@[k].date
                    && r@[k].storage_class@ == v@[k].storage_class@,
        decreases v@.len() - i,
    {
        r.push(v[i].clone());
        i = i + 1;
    }
    r
}

impl Clone for LifecycleRule {
    fn clone(&self) -> (r: Self)
        ensures
            r.same_as(*self),
    {
        LifecycleRule {
            id: self.id.clone(),
            prefix: self.prefix.clone(),
            status: self.status,
            expiration: self.expiration,
            transitions: match &self.transitions {
                Some(v) => Some(clone_transitions(v)),
                None => None,
            },
            filter_tags: match &self.filter_tags {
                Some(t) => Some(t.clone()),
                None => None,
            },
        }
    }
}

/// The first position, if any, of a rule with this id.
pub open spec fn first_id(rules: Seq<LifecycleRule>, id: Seq<char>) -> Option<int> {
    if exists|i: int| 0 <= i < rules.len() && rules[i].id@ == id {
        Some(
            choose|i: int|
                0 <= i < rules.len() && rules[i].id@ == id && forall|j: int|
                    0 <= j < i ==> (#[trigger] rules[j]).id@ != id,
        )
    } else {
        None
    }
}

/// The rules whose id differs from `id`, in order.
pub open spec fn without_rule(rules: Seq<LifecycleRule>, id: Seq<char>) -> Seq<LifecycleRule>
    decreases rules.len(),
{
    if rules.len() == 0 {
        rules
    } else if rules.last().id@ == id {
        without_rule(rules.drop_last(), id)
    } else {
        without_rule(rules.drop_last(), id).push(rules.last())
    }
}

/// The first transition, if any, that gives neither days nor a date.
pub open spec fn first_open_transition(ts: Seq<TransitionConfig>) -> Option<int> {
    if exists|i: int| 0 <= i < ts.len() && ts[i].days is None && ts[i].date is None {
        Some(
            choose|i: int|
                0 <= i < ts.len() && ts[i].days is None && ts[i].date is None && forall|j: int|
                    0 <= j < i ==> !((#[trigger] ts[j]).days is None && ts[j].date is None),
        )
    } else {
        None
    }
}

/// What is wrong with a rule, checked in order; `None` when nothing is.
pub open spec fn rule_problem(r: LifecycleRule) -> Option<Seq<char>> {
    if r.expiration is None && r.transitions is None {
        Some("Rule "@ + r.id@ + " must specify at least one action"@)
    } else if r.expiration matches Some(e) && e.days is None && e.date is None {
        Some("Expiration in rule "@ + r.id@ + " must specify days or date"@)
    } else if r.transitions matches Some(ts) && first_open_transition(ts@) is Some {
        Some(
            "Transition "@ + decimal(first_open_transition(r.transitions->0@)->0 as nat) + " in rule "@
                + r.id@ + " must specify days or date"@,
        )
    } else {
        None
    }
}

/// What is wrong with the first rule, in order, that has a problem.
pub open spec fn first_problem(rules: Seq<LifecycleRule>) -> Option<Seq<char>>
    decreases rules.len(),
{
    if rules.len() == 0 {
        None
    } else {
        match first_problem(rules.drop_last()) {
            Some(m) => Some(m),
            None => rule_problem(rules.last()),
        }
    }
}

proof fn lemma_first_problem_step(rules: Seq<LifecycleRule>, i: int)
    requires
        0 <= i < rules.len(),
    ensures
        first_problem(rules.take(i + 1)) == (match first_problem(rules.take(i)) {
            Some(m) => Some(m),
            None => rule_problem(rules[i]),
        }),
{
    assert(rules.take(i + 1).drop_last() =~= rules.take(i));
}

proof fn lemma_first_problem_extends(rules: Seq<LifecycleRule>, i: int)
    requires
        0 <= i <= rules.len(),
        first_problem(rules.take(i)) is Some,
    ensures
        first_problem(rules) == first_problem(rules.take(i)),
    decreases rules.len() - i,
{
    if i < rules.len() {
        lemma_first_problem_step(rules, i);
        lemma_first_problem_extends(rules, i + 1);
    } else {
        assert(rules.take(i) =~= rules);
    }
}

/// The storage lifecycle rules of a bucket.
#[derive(Debug)]
pub struct LifecycleConfiguration {
    pub rules: Vec<LifecycleRule>,
}

impl Default for LifecycleConfiguration {
    fn default() -> (r: Self)
        ensures
            r.rules@.len() == 0,
    {
        LifecycleConfiguration::new()
    }
}

/// Two rule lists hold the same settings.
pub open spec fn same_rule_lists(a: Seq<LifecycleRule>, b: Seq<LifecycleRule>) -> bool {
    a.len() == b.len() && forall|i: int| 0 <= i < a.len() ==> (#[trigger] a[i]).same_as(b[i])
}

impl Clone for LifecycleConfiguration {
    fn clone(&self) -> (r: Self)
        ensures
            same_rule_lists(r.rules@, self.rules@),
    {
        let mut rules: Vec<LifecycleRule> = Vec::new();
        let mut i: usize = 0;
        while i < self.rules.len()
            invariant
                i <= self.rules@.len(),
                rules@.len() == i,
                forall|k: int| 0 <= k < i ==> (#[trigger] rules@[k]).same_as(self.rules@[k]),
            decreases self.rules@.len() - i,
        {
            rules.push(self.rules[i].clone());
            i = i + 1;
        }
        LifecycleConfiguration { rules }
    }
}

impl LifecycleConfiguration {
    /// A configuration without rules.
    pub fn new() -> (r: Self)
        ensures
            r.rules@.len() == 0,
    {
        LifecycleConfiguration { rules: Vec::new() }
    }

    /// The position of the first rule with this id.
    fn find(&self, id: &str) -> (r: Option<usize>)
        ensures
            match r {
                Some(i) => first_id(self.rules@, id@) == Some(i as int) && i < self.rules@.len(),
                None => first_id(self.rules@, id@) is None,
            },
    {
        let key = String::from_str(id);
        let mut i: usize = 0;
        while i < self.rules.len()
            invariant
                i <= self.rules@.len(),
                key@ == id@,
                forall|j: int| 0 <= j < i ==> (#[trigger] self.rules@[j]).id@ != id@,
            decreases self.rules@.len() - i,
        {
            if self.rules[i].id == key {
                proof {
                    let s = self.rules@;
                    let k = choose|k: int|
                        0 <= k < s.len() && s[k].id@ == id@ && forall|j: int|
                            0 <= j < k ==> (#[trigger] s[j]).id@ != id@;
                    assert(0 <= i < s.len() && s[i as int].id@ == id@);
                    assert(k == i as int) by {
                        if k < i {
                            assert(s[k].id@ != id@);
                        } else if k > i {
                            assert(s[i as int].id@ != id@);
                        }
                    }
                }
                return Some(i);
            }
            i = i + 1;
        }
        None
    }

    /// Adds a rule, replacing the first rule with the same id when there is one.
    pub fn add_rule(&mut self, rule: LifecycleRule)
        ensures
            match first_id(old(self).rules@, rule.id@) {
                Some(i) => final(self).rules@ == old(self).rules@.update(i, rule),
                None => final(self).rules@ == old(self).rules@.push(rule),
            },
    {
        match self.find(rule.id.as_str()) {
            Some(i) => {
                self.rules.set(i, rule);
            },
            None => {
                self.rules.push(rule);
            },
        }
    }

    /// Removes every rule with this id; whether any was removed.
    pub fn remove_rule(&mut self, rule_id: &str) -> (r: bool)
        ensures
            final(self).rules@ == without_rule(old(self).rules@, rule_id@),
            r == (final(self).rules@.len() != old(self).rules@.len()),
    {
        let len_before = self.rules.len();
        let mut kept: Vec<LifecycleRule> = Vec::new();
        let mut source = Vec::new();
        std::mem::swap(&mut source, &mut self.rules);
        let ghost all = source@;
        let total: usize = source.len();
        let key = String::from_str(rule_id);
        let mut i: usize = 0;
        while source.len() > 0
            invariant
                i + source@.len() == all.len(),
                all.len() == total,
                source@ == all.skip(i as int),
                kept@ == without_rule(all.take(i as int), rule_id@),
                key@ == rule_id@,
            decreases source@.len(),
        {
            let r = source.remove(0);
            assert(r == all[i as int]);
            assert(all.take(i + 1).drop_last() =~= all.take(i as int));
            assert(source@ =~= all.skip(i + 1));
            if r.id != key {
                kept.push(r);
            }
            i = i + 1;
        }
        assert(all.take(i as int) =~= all);
        self.rules = kept;
        self.rules.len() != len_before
    }

    /// The first rule with this id.
    pub fn get_rule(&self, rule_id: &str) -> (r: Option<&LifecycleRule>)
        ensures
            match first_id(self.rules@, rule_id@) {
                Some(i) => r == Some(&self.rules@[i]),
                None => r is None,
            },
    {
        match self.find(rule_id) {
            Some(i) => Some(&self.rules[i]),
            None => None,
        }
    }

    /// Checks every rule, in order: it must have an action, its expiration must give days or
    /// a date, and so must each of its transitions.
    pub fn validate(&self) -> (r: Result<(), StoreError>)
        ensures
            match first_problem(self.rules@) {
                Some(m) => r matches Err(StoreError::InvalidLifecycleConfig(x)) && x@ == m,
                None => r is Ok,
            },
    {
        let mut i: usize = 0;
        while i < self.rules.len()
            invariant
                i <= self.rules@.len(),
                first_problem(self.rules@.take(i as int)) is None,
            decreases self.rules@.len() - i,
        {
            proof {
                lemma_first_problem_step(self.rules@, i as int);
            }
            match rule_message(&self.rules[i]) {
                Some(m) => {
                    proof {
                        lemma_first_problem_extends(self.rules@, i + 1);
                    }
                    return Err(StoreError::InvalidLifecycleConfig(m));
                },
                None => {},
            }
            i = i + 1;
        }
        assert(self.rules@.take(i as int) =~= self.rules@);
        Ok(())
    }
}

/// The position of the first transition that gives neither days nor a date.
fn find_open_transition(ts: &Vec<TransitionConfig>) -> (r: Option<usize>)
    ensures
        match r {
            Some(i) => first_open_transition(ts@) == Some(i as int),
            None => first_open_transition(ts@) is None,
        },
{
    let mut i: usize = 0;
    while i < ts.len()
        invariant
            i <= ts@.len(),
            forall|j: int| 0 <= j < i ==> !((#[trigger] ts@[j]).days is None && ts@[j].date is None),
        decreases ts@.len() - i,
    {
        if ts[i].days.is_none() && ts[i].date.is_none() {
            proof {
                let s = ts@;
                let k = choose|k: int|
                    0 <= k < s.len() && s[k].days is None && s[k].date is None && forall|j: int|
                        0 <= j < k ==> !((#[trigger] s[j]).days is None && s[j].date is None);
                assert(0 <= i < s.len() && s[i as int].days is None && s[i as int].date is None);
                assert(k == i as int) by {
                    if k < i {
                        assert(!(s[k].days is None && s[k].date is None));
                    } else if k > i {
                        assert(!(s[i as int].days is None && s[i as int].date is None));
                    }
                }
            }
            return Some(i);
        }
        i = i + 1;
    }
    None
}

/// What is wrong with a rule.
fn rule_message(rule: &LifecycleRule) -> (r: Option<String>)
    ensures
        match rule_problem(*rule) {
            Some(m) => r matches Some(x) && x@ == m,
            None => r is None,
        },
{
    if rule.expiration.is_none() && rule.transitions.is_none() {
        let mut s = concat_str("Rule ", rule.id.as_str());
        push_str(&mut s, " must specify at least one action");
        return Some(s);
    }
    if let Some(e) = &rule.expiration {
        if e.days.is_none() && e.date.is_none() {
            let mut s = concat_str("Expiration in rule ", rule.id.as_str());
            push_str(&mut s, " must specify days or date");
            return Some(s);
        }
    }
    if let Some(ts) = &rule.transitions {
        if let Some(i) = find_open_transition(ts) {
            let mut s = String::from_str("Transition ");
            push_decimal(&mut s, i as u64);
            push_str(&mut s, " in rule ");
            push_str(&mut s, rule.id.as_str());
            push_str(&mut s, " must specify days or date");
            return Some(s);
        }
    }
    None
}

/// The instant `days` days after `from`, compared with `now`: whether it has come.
pub open spec fn due(from: UtcTime, days: u32, now: UtcTime) -> bool {
    from@ + days * SECS_PER_DAY * 1_000_000_000 <= now@
}

/// What an enabled rule calls for on an object last modified at `modified`, at `now`:
/// deletion when its expiration in days has come, then a transition for each of its
/// transitions in days whose time has come. A disabled rule calls for nothing.
pub open spec fn due_action_classes(r: LifecycleRule, modified: UtcTime, now: UtcTime) -> Seq<Option<Seq<char>>> {
    if r.status == RuleStatus::Disabled {
        Seq::empty()
    } else {
        (if r.expiration matches Some(e) && e.days matches Some(d) && due(modified, d, now) {
            seq![None]
        } else {
            Seq::empty()
        }) + match r.transitions {
            Some(ts) => due_transitions(ts@, modified, now),
            None => Seq::empty(),
        }
    }
}

/// The storage classes of the transitions, in order, given in days whose time has come.
pub open spec fn due_transitions(ts: Seq<TransitionConfig>, modified: UtcTime, now: UtcTime) -> Seq<Option<Seq<char>>>
    decreases ts.len(),
{
    if ts.len() == 0 {
        Seq::empty()
    } else {
        due_transitions(ts.drop_last(), modified, now) + (if ts.last().days matches Some(d) && due(modified, d, now) {
            seq![Some(ts.last().storage_class@)]
        } else {
            Seq::empty()
        })
    }
}

/// The model of an action: `None` for deletion, the storage class for a transition.
pub open spec fn action_class(a: LifecycleAction) -> Option<Seq<char>> {
    match a {
        LifecycleAction::Delete => None,
        LifecycleAction::Transition { storage_class } => Some(storage_class@),
    }
}

/// The models of a list of actions.
pub open spec fn action_classes(v: Seq<LifecycleAction>) -> Seq<Option<Seq<char>>> {
    v.map_values(|a: LifecycleAction| action_class(a))
}

fn is_due(from: &UtcTime, days: u32, now: &UtcTime) -> (r: bool)
    requires
        from.wf(),
        now.wf(),
    ensures
        r == due(*from, days, *now),
{
    let f = from.as_nanos();
    let n = now.as_nanos();
    proof {
        from.lemma_range();
        now.lemma_range();
        assert(0 <= (days as int) * 86_400 * 1_000_000_000 <= 4_294_967_295 * 86_400 * 1_000_000_000)
            by (nonlinear_arith)
            requires
                0 <= days <= 4_294_967_295,
        ;
    }
    let span: i128 = (days as i128) * (SECS_PER_DAY as i128) * 1_000_000_000i128;
    f + span <= n
}

/// The actions a rule calls for on an object last modified at `modified`, at `now`.
pub fn due_actions(rule: &LifecycleRule, modified: &UtcTime, now: &UtcTime) -> (r: Vec<LifecycleAction>)
    requires
        modified.wf(),
        now.wf(),
    ensures
        action_classes(r@) == due_action_classes(*rule, *modified, *now),
{
    let mut out: Vec<LifecycleAction> = Vec::new();
    if rule.status == RuleStatus::Disabled {
        assert(action_classes(out@) =~= Seq::empty());
        return out;
    }
    if let Some(e) = &rule.expiration {
        if let Some(d) = e.days {
            if is_due(modified, d, now) {
                out.push(LifecycleAction::Delete);
            }
        }
    }
    let ghost first = action_classes(out@);
    assert(first =~= (if rule.expiration matches Some(e) && e.days matches Some(d) && due(*modified, d, *now) {
        seq![None]
    } else {
        Seq::<Option<Seq<char>>>::empty()
    }));
    if let Some(ts) = &rule.transitions {
        let mut i: usize = 0;
        while i < ts.len()
            invariant
                i <= ts@.len(),
                modified.wf(),
                now.wf(),
                action_classes(out@) == first + due_transitions(ts@.take(i as int), *modified, *now),
            decreases ts@.len() - i,
        {
            let ghost before = out@;
            assert(ts@.take(i + 1).drop_last() =~= ts@.take(i as int));
            assert(ts@.take(i + 1).last() == ts@[i as int]);
            if let Some(d) = ts[i].days {
                if is_due(modified, d, now) {
                    let c = ts[i].storage_class.clone();
                    out.push(LifecycleAction::Transition { storage_class: c });
                    assert(action_classes(out@) =~= action_classes(before).push(Some(c@)));
                }
            }
            assert(action_classes(out@) =~= first + due_transitions(ts@.take(i + 1), *modified, *now));
            i = i + 1;
        }
        assert(ts@.take(i as int) =~= ts@);
    } else {
        assert(action_classes(out@) =~= first + Seq::<Option<Seq<char>>>::empty());
    }
    out
}

/// The path under which a rule's objects are listed: the bucket, `/`, and the rule's prefix.
pub fn rule_listing_prefix(bucket: &str, rule: &LifecycleRule) -> (r: String)
    ensures
        r@ == bucket@ + "/"@ + rule.prefix@,
{
    let mut s = String::from_str(bucket);
    push_str(&mut s, "/");
    push_str(&mut s, rule.prefix.as_str());
    s
}

/// An action that a lifecycle rule calls for on an object.
#[derive(Debug)]
pub struct PlannedAction {
    /// The object's path.
    pub location: String,
    /// The id of the rule.
    pub rule_id: String,
    pub action: LifecycleAction,
}

/// The model of a planned action: the object's path, the rule's id and the action.
pub open spec fn planned_view(p: PlannedAction) -> (Seq<char>, Seq<char>, Option<Seq<char>>) {
    (p.location@, p.rule_id@, action_class(p.action))
}

/// The models of a list of planned actions.
pub open spec fn planned_views(v: Seq<PlannedAction>) -> Seq<(Seq<char>, Seq<char>, Option<Seq<char>>)> {
    v.map_values(|p: PlannedAction| planned_view(p))
}

/// The modification time of a listed object, when it lies in range.
pub open spec fn listed_time(o: ListedObject) -> Option<UtcTime> {
    if valid_instant(o.modified_secs as int, o.modified_nanos as int) {
        Some(UtcTime::spec_new(o.modified_secs, o.modified_nanos))
    } else {
        None
    }
}

/// What a rule calls for on a listed object at `now`, each action with the object's path and
/// the rule's id (nothing for an object whose modification time lies out of range).
pub open spec fn object_plan(rule: LifecycleRule, o: ListedObject, now: UtcTime) -> Seq<(Seq<char>, Seq<char>, Option<Seq<char>>)> {
    match listed_time(o) {
        Some(t) => due_action_classes(rule, t, now).map_values(
            |c: Option<Seq<char>>| (o.location@, rule.id@, c),
        ),
        None => Seq::empty(),
    }
}

/// What a rule calls for on the listed objects at `now`, object by object in listing order.
pub open spec fn rule_plan(rule: LifecycleRule, listing: Seq<ListedObject>, now: UtcTime) -> Seq<(Seq<char>, Seq<char>, Option<Seq<char>>)>
    decreases listing.len(),
{
    if listing.len() == 0 {
        Seq::empty()
    } else {
        rule_plan(rule, listing.drop_last(), now) + object_plan(rule, listing.last(), now)
    }
}

/// What the rules call for at `now`, rule by rule, each on its own listing.
pub open spec fn config_plan(rules: Seq<LifecycleRule>, listings: Seq<Seq<ListedObject>>, now: UtcTime) -> Seq<(Seq<char>, Seq<char>, Option<Seq<char>>)>
    decreases rules.len(),
{
    if rules.len() == 0 || listings.len() == 0 {
        Seq::empty()
    } else {
        config_plan(rules.drop_last(), listings.drop_last(), now) + rule_plan(
            rules.last(),
            listings.last(),
            now,
        )
    }
}

/// A copy of an action.
fn copy_action(a: &LifecycleAction) -> (r: LifecycleAction)
    ensures
        action_class(r) == action_class(*a),
{
    match a {
        LifecycleAction::Delete => LifecycleAction::Delete,
        LifecycleAction::Transition { storage_class } => LifecycleAction::Transition {
            storage_class: storage_class.clone(),
        },
    }
}

/// The actions a rule calls for at `now` on the listed objects, object by object in listing
/// order; objects whose modification time lies out of range are passed over.
pub fn plan_rule_actions(rule: &LifecycleRule, listing: &Vec<ListedObject>, now: &UtcTime) -> (r: Vec<PlannedAction>)
    requires
        now.wf(),
    ensures
        planned_views(r@) == rule_plan(*rule, listing@, *now),
{
    let mut out: Vec<PlannedAction> = Vec::new();
    let mut i: usize = 0;
    assert(planned_views(out@) =~= rule_plan(*rule, listing@.take(0), *now));
    while i < listing.len()
        invariant
            i <= listing@.len(),
            now.wf(),
            planned_views(out@) == rule_plan(*rule, listing@.take(i as int), *now),
        decreases listing@.len() - i,
    {
        assert(listing@.take(i + 1).drop_last() =~= listing@.take(i as int));
        assert(listing@.take(i + 1).last() == listing@[i as int]);
        let o = &listing[i];
        let ghost base = out@;
        match UtcTime::from_unix(o.modified_secs, o.modified_nanos) {
            Some(t) => {
                let actions = due_actions(rule, &t, now);
                let mut j: usize = 0;
                while j < actions.len()
                    invariant
                        j <= actions@.len(),
                        out@.len() == base.len() + j,
                        forall|k: int| 0 <= k < base.len() ==> out@[k] == base[k],
                        forall|k: int|
                            0 <= k < j ==> planned_view(#[trigger] out@[base.len() + k]) == (
                                o.location@,
                                rule.id@,
                                action_class(actions@[k]),
                            ),
                    decreases actions@.len() - j,
                {
                    let a = copy_action(&actions[j]);
                    out.push(PlannedAction {
                        location: o.location.clone(),
                        rule_id: rule.id.clone(),
                        action: a,
                    });
                    assert(out@[base.len() + j] == out@.last());
                    j = j + 1;
                }
                proof {
                    assert(listed_time(*o) == Some(t));
                    let tail = object_plan(*rule, *o, *now);
                    assert(tail.len() == actions@.len());
                    assert forall|k: int| 0 <= k < tail.len() implies tail[k] == planned_view(
                        out@[base.len() + k],
                    ) by {
                        assert(action_classes(actions@)[k] == action_class(actions@[k]));
                    }
                    assert(planned_views(out@) =~= planned_views(base) + tail);
                }
            },
            None => {
                assert(object_plan(*rule, *o, *now) =~= Seq::empty());
                assert(planned_views(out@) =~= planned_views(base) + object_plan(*rule, *o, *now));
            },
        }
        i = i + 1;
    }
    assert(listing@.take(listing@.len() as int) =~= listing@);
    out
}

/// How often, in seconds, the running worker applies the lifecycle rules: once a day.
pub const LIFECYCLE_CHECK_INTERVAL_SECS: u64 = 86_400;

/// Lifecycle configurations by bucket, and whether the worker that applies them runs.
pub struct LifecycleManager {
    configs: Vec<(String, LifecycleConfiguration)>,
    running: bool,
}

impl LifecycleManager {
    /// The configurations, by bucket.
    pub closed spec fn spec_configs(self) -> Map<Seq<char>, LifecycleConfiguration> {
        keyed_map(self.configs@)
    }

    /// Whether the worker runs.
    pub closed spec fn spec_running(self) -> bool {
        self.running
    }

    /// Bucket names are distinct.
    pub closed spec fn wf(self) -> bool {
        names_distinct(self.configs@)
    }

    /// A manager without configurations whose worker does not run.
    pub fn new() -> (r: Self)
        ensures
            r.wf(),
            r.spec_configs() == Map::<Seq<char>, LifecycleConfiguration>::empty(),
            !r.spec_running(),
    {
        LifecycleManager { configs: Vec::new(), running: false }
    }

    /// A copy of the bucket's configuration, if it has one.
    pub fn get_lifecycle_config(&self, bucket: &str) -> (r: Result<Option<LifecycleConfiguration>, StoreError>)
        requires
            self.wf(),
        ensures
            match r {
                Ok(Some(c)) => self.spec_configs().dom().contains(bucket@) && same_rule_lists(
                    c.rules@,
                    self.spec_configs()[bucket@].rules@,
                ),
                Ok(None) => !self.spec_configs().dom().contains(bucket@),
                Err(_) => false,
            },
    {
        proof {
            crate::keyed::lemma_keyed_map(self.configs@);
        }
        match keyed_find(&self.configs, bucket) {
            Some(i) => Ok(Some(self.configs[i].1.clone())),
            None => Ok(None),
        }
    }

    /// Validates the configuration and stores it for the bucket.
    pub fn set_lifecycle_config(&mut self, bucket: &str, config: LifecycleConfiguration) -> (r: Result<
        (),
        StoreError,
    >)
        requires
            old(self).wf(),
        ensures
            final(self).wf(),
            final(self).spec_running() == old(self).spec_running(),
            match first_problem(config.rules@) {
                Some(m) => (r matches Err(StoreError::InvalidLifecycleConfig(x)) && x@ == m)
                    && final(self).spec_configs() == old(self).spec_configs(),
                None => r is Ok && final(self).spec_configs() == old(self).spec_configs().insert(
                    bucket@,
                    config,
                ),
            },
    {
        match config.validate() {
            Ok(()) => {},
            Err(e) => { return Err(e); },
        }
        keyed_set(&mut self.configs, String::from_str(bucket), config);
        Ok(())
    }

    /// Whether the worker runs.
    pub fn is_running(&self) -> (r: bool)
        ensures
            r == self.spec_running(),
    {
        self.running
    }

    /// A copy of every bucket's configuration, bucket by bucket.
    pub fn config_snapshot(&self) -> (r: Vec<(String, LifecycleConfiguration)>)
        requires
            self.wf(),
        ensures
            names_distinct(r@),
            keyed_map(r@).dom() == self.spec_configs().dom(),
            forall|b: Seq<char>| #[trigger]
                keyed_map(r@).dom().contains(b) ==> same_rule_lists(
                    keyed_map(r@)[b].rules@,
                    self.spec_configs()[b].rules@,
                ),
    {
        let mut out: Vec<(String, LifecycleConfiguration)> = Vec::new();
        let mut i: usize = 0;
        proof {
            crate::keyed::lemma_keyed_map(self.configs@);
        }
        while i < self.configs.len()
            invariant
                i <= self.configs@.len(),
                names_distinct(self.configs@),
                out@.len() == i,
                forall|j: int| 0 <= j < i ==> (#[trigger] out@[j]).0@ == self.configs@[j].0@ && same_rule_lists(
                    out@[j].1.rules@,
                    self.configs@[j].1.rules@,
                ),
            decreases self.configs@.len() - i,
        {
            let name = self.configs[i].0.clone();
            let config = self.configs[i].1.clone();
            out.push((name, config));
            i = i + 1;
        }
        proof {
            assert(names_distinct(out@)) by {
                assert forall|a: int, b: int| 0 <= a < b < out@.len() implies (#[trigger] out@[a]).0@
                    != (#[trigger] out@[b]).0@ by {
                    assert(self.configs@[a].0@ != self.configs@[b].0@);
                }
            }
            crate::keyed::lemma_keyed_map(out@);
            crate::keyed::lemma_keyed_map(self.configs@);
            assert forall|b: Seq<char>| keyed_map(out@).dom().contains(b) == self.spec_configs().dom().contains(b) by {
                if keyed_map(out@).dom().contains(b) {
                    let j = choose|j: int| 0 <= j < out@.len() && (#[trigger] out@[j]).0@ == b;
                    assert(self.configs@[j].0@ == b);
                }
                if self.spec_configs().dom().contains(b) {
                    let j = choose|j: int| 0 <= j < self.configs@.len() && (#[trigger] self.configs@[j]).0@ == b;
                    assert(out@[j].0@ == b);
                }
            }
            assert(keyed_map(out@).dom() =~= self.spec_configs().dom());
            assert forall|b: Seq<char>| #[trigger] keyed_map(out@).dom().contains(b) implies same_rule_lists(
                keyed_map(out@)[b].rules@,
                self.spec_configs()[b].rules@,
            ) by {
                let j = choose|j: int| 0 <= j < out@.len() && (#[trigger] out@[j]).0@ == b;
                assert(keyed_map(out@)[out@[j].0@] == out@[j].1);
                assert(self.configs@[j].0@ == b);
                assert(keyed_map(self.configs@)[self.configs@[j].0@] == self.configs@[j].1);
            }
        }
        out
    }

    /// Marks the worker as running; whether it has to be started (it was not running).
    pub fn start(&mut self) -> (r: Result<bool, StoreError>)
        ensures
            final(self).spec_running(),
            final(self).spec_configs() == old(self).spec_configs(),
            final(self).wf() == old(self).wf(),
            r == Ok::<bool, StoreError>(!old(self).spec_running()),
    {
        if self.running {
            return Ok(false);
        }
        self.running = true;
        Ok(true)
    }

    /// What the configuration's rules call for at `now` on the objects of the bucket: rule by
    /// rule, the objects listed under `{bucket}/{prefix}` (disabled rules are passed over),
    /// object by object, the deletion and transitions that have come due.
    pub fn apply_lifecycle_rules(
        store: &VersionedStore,
        bucket: &str,
        config: &LifecycleConfiguration,
        now: &UtcTime,
    ) -> (r: Result<Vec<PlannedAction>, StoreError>)
        requires
            now.wf(),
        ensures
            r matches Ok(v) && exists|listings: Seq<Seq<ListedObject>>|
                listings.len() == config.rules@.len() && (forall|i: int|
                    0 <= i < listings.len() && config.rules@[i].status != RuleStatus::Disabled
                        ==> is_listing_of(
                        #[trigger] listings[i],
                        store.contents(),
                        object_path(bucket@ + "/"@ + config.rules@[i].prefix@),
                    )) && planned_views(v@) == config_plan(config.rules@, listings, *now),
    {
        let rules = &config.rules;
        let mut out: Vec<PlannedAction> = Vec::new();
        let ghost mut listings: Seq<Seq<ListedObject>> = Seq::empty();
        let mut i: usize = 0;
        assert(planned_views(out@) =~= config_plan(rules@.take(0), listings, *now));
        while i < rules.len()
            invariant
                i <= rules@.len(),
                now.wf(),
                listings.len() == i,
                forall|k: int|
                    0 <= k < i && rules@[k].status != RuleStatus::Disabled ==> is_listing_of(
                        #[trigger] listings[k],
                        store.contents(),
                        object_path(bucket@ + "/"@ + rules@[k].prefix@),
                    ),
                planned_views(out@) == config_plan(rules@.take(i as int), listings, *now),
            decreases rules@.len() - i,
        {
            let rule = &rules[i];
            let ghost before = listings;
            assert(rules@.take(i + 1).drop_last() =~= rules@.take(i as int));
            assert(rules@.take(i + 1).last() == rules@[i as int]);
            if rule.status == RuleStatus::Disabled {
                proof {
                    listings = listings.push(Seq::empty());
                    assert(listings.drop_last() =~= before);
                    assert(rule_plan(*rule, Seq::<ListedObject>::empty(), *now) =~= Seq::empty());
                    assert(planned_views(out@) =~= config_plan(rules@.take(i + 1), listings, *now));
                }
            } else {
                let prefix = rule_listing_prefix(bucket, rule);
                let listing = match store.list(Some(prefix.as_str())) {
                    Ok(v) => v,
                    Err(e) => {
                        return Err(e);
                    },
                };
                let mut planned = plan_rule_actions(rule, &listing, now);
                let ghost o0 = out@;
                let ghost p0 = planned@;
                out.append(&mut planned);
                proof {
                    listings = listings.push(listing@);
                    assert(listings.drop_last() =~= before);
                    assert(listings.last() == listing@);
                    assert(planned_views(out@) =~= planned_views(o0) + planned_views(p0));
                    assert(planned_views(out@) =~= config_plan(rules@.take(i + 1), listings, *now));
                }
            }
            i = i + 1;
        }
        assert(rules@.take(rules@.len() as int) =~= rules@);
        Ok(out)
    }

    /// Marks the worker as stopped.
    pub fn stop(&mut self) -> (r: Result<(), StoreError>)
        ensures
            !final(self).spec_running(),
            final(self).spec_configs() == old(self).spec_configs(),
            final(self).wf() == old(self).wf(),
            r is Ok,
    {
        self.running = false;
        Ok(())
    }
}

} // verus!
