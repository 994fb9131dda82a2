use vstd::prelude::*;
use vstd::string::*;

use crate::errors::{LifecycleError, LifecycleErrorView};
use crate::keyed::{keyed_find, keyed_map, keyed_remove, keyed_set, lemma_keyed_map, names_distinct};
use crate::lifecycle::{
    clone_rules, rules_wf, same_rules, LifecycleConfiguration, LifecycleRule,
};
use crate::time::UtcTime;
use crate::value_objects::{bucket_name_error, BucketName};

verus! {

/// Two configurations are for the same bucket and hold the same rules.
pub open spec fn same_config(a: LifecycleConfiguration, b: LifecycleConfiguration) -> bool {
    a.bucket@ == b.bucket@ && same_rules(a.rules@, b.rules@)
}

/// The position of the first rule with this id.
pub open spec fn first_rule_with_id(rules: Seq<LifecycleRule>, id: Seq<char>) -> Option<int>
    decreases rules.len(),
{
    if rules.len() == 0 {
        None
    } else {
        match first_rule_with_id(rules.drop_last(), id) {
            Some(i) => Some(i),
            None => if rules.last().id@ == id {
                Some(rules.len() - 1)
            } else {
                None
            },
        }
    }
}

proof fn lemma_first_rule_with_id(rules: Seq<LifecycleRule>, id: Seq<char>, n: int)
    requires
        0 <= n <= rules.len(),
        forall|j: int| 0 <= j < n ==> (#[trigger] rules[j]).id@ != id,
    ensures
        n < rules.len() && rules[n].id@ == id ==> first_rule_with_id(rules, id) == Some(n),
        n == rules.len() ==> first_rule_with_id(rules, id) is None,
    decreases rules.len(),
{
    if rules.len() > 0 {
        let t = rules.drop_last();
        if n < rules.len() {
            if n < t.len() {
                assert forall|j: int| 0 <= j < n implies (#[trigger] t[j]).id@ != id by {
                    assert(t[j] == rules[j]);
                }
                lemma_first_rule_with_id(t, id, n);
                assert(t[n] == rules[n]);
            } else {
                assert forall|j: int| 0 <= j < t.len() implies (#[trigger] t[j]).id@ != id by {
                    assert(t[j] == rules[j]);
                }
                lemma_first_rule_with_id(t, id, t.len() as int);
            }
        } else {
            assert forall|j: int| 0 <= j < t.len() implies (#[trigger] t[j]).id@ != id by {
                assert(t[j] == rules[j]);
            }
            lemma_first_rule_with_id(t, id, t.len() as int);
        }
    }
}

/// The first rule with an id lies in range and has that id.
pub proof fn lemma_first_rule_with_id_bounds(rules: Seq<LifecycleRule>, id: Seq<char>)
    ensures
        first_rule_with_id(rules, id) matches Some(i) ==> 0 <= i < rules.len() && rules[i].id@
            == id,
    decreases rules.len(),
{
    if rules.len() > 0 {
        lemma_first_rule_with_id_bounds(rules.drop_last(), id);
    }
}

/// The position of the first rule with this id.
pub fn find_rule(rules: &Vec<LifecycleRule>, id: &str) -> (r: Option<usize>)
    ensures
        match r {
            Some(j) => first_rule_with_id(rules@, id@) == Some(j as int) && j < rules@.len()
                && rules@[j as int].id@ == id@,
            None => first_rule_with_id(rules@, id@) is None,
        },
{
    proof {
        lemma_first_rule_with_id_bounds(rules@, id@);
    }
    let key = String::from_str(id);
    let mut i: usize = 0;
    while i < rules.len()
        invariant
            i <= rules@.len(),
            key@ == id@,
            forall|j: int| 0 <= j < i ==> (#[trigger] rules@[j]).id@ != id@,
        decreases rules@.len() - i,
    {
        if rules[i].id == key {
            proof {
                lemma_first_rule_with_id(rules@, id@, i as int);
            }
            return Some(i);
        }
        i = i + 1;
    }
    proof {
        lemma_first_rule_with_id(rules@, id@, rules@.len() as int);
    }
    None
}

/// In-memory lifecycle repository: configurations and last processing times by bucket name.
pub struct InMemoryLifecycleRepository {
    configurations: Vec<(String, LifecycleConfiguration)>,
    last_processed: Vec<(String, UtcTime)>,
}

impl InMemoryLifecycleRepository {
    /// The stored configurations, by bucket name.
    pub closed spec fn configs(self) -> Map<Seq<char>, LifecycleConfiguration> {
        keyed_map(self.configurations@)
    }

    /// The last processing times, by bucket name.
    pub closed spec fn processed(self) -> Map<Seq<char>, UtcTime> {
        keyed_map(self.last_processed@)
    }

    /// Names are distinct and the stored rules are well formed.
    pub closed spec fn wf(self) -> bool {
        &&& names_distinct(self.configurations@)
        &&& names_distinct(self.last_processed@)
        &&& forall|i: int|
            0 <= i < self.configurations@.len() ==> rules_wf(
                (#[trigger] self.configurations@[i]).1.rules@,
            )
    }

    /// Stored configurations hold well-formed rules.
    pub proof fn lemma_stored_rules_wf(self, b: Seq<char>)
        requires
            self.wf(),
            self.configs().dom().contains(b),
        ensures
            rules_wf(self.configs()[b].rules@),
    {
        lemma_keyed_map(self.configurations@);
        let i = choose|i: int|
            0 <= i < self.configurations@.len() && (#[trigger] self.configurations@[i]).0@ == b;
        assert(rules_wf(self.configurations@[i].1.rules@));
    }

    /// An empty repository.
    pub fn new() -> (r: InMemoryLifecycleRepository)
        ensures
            r.wf(),
            r.configs() == Map::<Seq<char>, LifecycleConfiguration>::empty(),
            r.processed() == Map::<Seq<char>, UtcTime>::empty(),
    {
        InMemoryLifecycleRepository { configurations: Vec::new(), last_processed: Vec::new() }
    }

    /// Validates the configuration and stores it for the bucket, replacing any earlier one.
    /// An invalid configuration is refused with `InvalidRule` (empty rule id, the validation
    /// message as reason) and nothing changes.
    pub fn save_configuration(&mut self, bucket: &BucketName, config: &LifecycleConfiguration) -> (r:
        Result<(), LifecycleError>)
        requires
            old(self).wf(),
            rules_wf(config.rules@),
        ensures
            final(self).wf(),
            final(self).processed() == old(self).processed(),
            match config.validation_error() {
                Some(e) => r matches Err(err) && err@ == (LifecycleErrorView::InvalidRule {
                    rule_id: Seq::empty(),
                    reason: e.message(),
                }) && final(self).configs() == old(self).configs(),
                None => r is Ok && final(self).configs().dom() == old(self).configs().dom().insert(
                    bucket@,
                ) && same_config(final(self).configs()[bucket@], *config) && forall|b: Seq<char>|
                    b != bucket@ ==> #[trigger] final(self).configs().dom().contains(b) ==> final(self).configs()[b] == old(self).configs()[b],
            },
    {
        match config.validate() {
            Err(e) => {
                return Err(
                    LifecycleError::InvalidRule { rule_id: String::new(), reason: e.message() },
                );
            },
            Ok(()) => {},
        }
        let stored = config.clone();
        let ghost before = self.configurations@;
        keyed_set(&mut self.configurations, String::from_str(bucket.as_str()), stored);
        proof {
            lemma_keyed_map(before);
            lemma_keyed_map(self.configurations@);
            assert forall|i: int| 0 <= i < self.configurations@.len() implies rules_wf(
                (#[trigger] self.configurations@[i]).1.rules@,
            ) by {
                let n = self.configurations@[i].0@;
                assert(keyed_map(self.configurations@)[n] == self.configurations@[i].1);
                if n != bucket@ {
                    assert(keyed_map(self.configurations@).dom().contains(n));
                    assert(keyed_map(before).dom().contains(n));
                    let j = choose|j: int| 0 <= j < before.len() && (#[trigger] before[j]).0@ == n;
                    assert(keyed_map(before)[before[j].0@] == before[j].1);
                }
            }
        }
        Ok(())
    }

    /// The configuration stored for the bucket, if any.
    pub fn get_configuration(&self, bucket: &BucketName) -> (r: Result<
        Option<LifecycleConfiguration>,
        LifecycleError,
    >)
        requires
            self.wf(),
        ensures
            match r {
                Ok(Some(c)) => self.configs().dom().contains(bucket@) && same_config(
                    c,
                    self.configs()[bucket@],
                ) && rules_wf(c.rules@),
                Ok(None) => !self.configs().dom().contains(bucket@),
                Err(_) => false,
            },
    {
        match keyed_find(&self.configurations, bucket.as_str()) {
            Some(i) => {
                proof {
                    self.lemma_stored_rules_wf(bucket@);
                }
                Ok(Some(self.configurations[i].1.clone()))
            },
            None => Ok(None),
        }
    }

    /// Removes the bucket's configuration and last processing time.
    pub fn delete_configuration(&mut self, bucket: &BucketName) -> (r: Result<(), LifecycleError>)
        requires
            old(self).wf(),
        ensures
            r is Ok,
            final(self).wf(),
            final(self).configs() == old(self).configs().remove(bucket@),
            final(self).processed() == old(self).processed().remove(bucket@),
    {
        let ghost before = self.configurations@;
        keyed_remove(&mut self.configurations, bucket.as_str());
        keyed_remove(&mut self.last_processed, bucket.as_str());
        proof {
            lemma_keyed_map(before);
            lemma_keyed_map(self.configurations@);
            assert forall|i: int| 0 <= i < self.configurations@.len() implies rules_wf(
                (#[trigger] self.configurations@[i]).1.rules@,
            ) by {
                let n = self.configurations@[i].0@;
                assert(keyed_map(self.configurations@)[n] == self.configurations@[i].1);
                assert(keyed_map(self.configurations@).dom().contains(n));
                assert(keyed_map(before).dom().contains(n));
                let j = choose|j: int| 0 <= j < before.len() && (#[trigger] before[j]).0@ == n;
                assert(keyed_map(before)[before[j].0@] == before[j].1);
            }
        }
        Ok(())
    }

    /// Whether a configuration is stored for the bucket.
    pub fn configuration_exists(&self, bucket: &BucketName) -> (r: Result<bool, LifecycleError>)
        requires
            self.wf(),
        ensures
            r == Ok::<bool, LifecycleError>(self.configs().dom().contains(bucket@)),
    {
        Ok(keyed_find(&self.configurations, bucket.as_str()).is_some())
    }

    /// The first rule with this id in the bucket's configuration, if any.
    pub fn get_rule(&self, bucket: &BucketName, rule_id: &str) -> (r: Result<
        Option<LifecycleRule>,
        LifecycleError,
    >)
        requires
            self.wf(),
        ensures
            match r {
                Ok(Some(rule)) => self.configs().dom().contains(bucket@) && (first_rule_with_id(
                    self.configs()[bucket@].rules@,
                    rule_id@,
                ) matches Some(i) && rule.same_as(self.configs()[bucket@].rules@[i])),
                Ok(None) => !self.configs().dom().contains(bucket@) || first_rule_with_id(
                    self.configs()[bucket@].rules@,
                    rule_id@,
                ) is None,
                Err(_) => false,
            },
    {
        match keyed_find(&self.configurations, bucket.as_str()) {
            Some(i) => {
                let rules = &self.configurations[i].1.rules;
                assert(self.configs()[bucket@] == self.configurations@[i as int].1);
                match find_rule(rules, rule_id) {
                    Some(j) => {
                        let found = rules[j].clone();
                        assert(first_rule_with_id(self.configs()[bucket@].rules@, rule_id@) == Some(
                            j as int,
                        ));
                        Ok(Some(found))
                    },
                    None => Ok(None),
                }
            },
            None => Ok(None),
        }
    }

    /// Replaces the first rule with the same id in the bucket's configuration, then validates
    /// the configuration. Errors: `ConfigurationNotFound` when the bucket has none,
    /// `InvalidRule` ("Rule not found") when no rule has the id, and `InvalidRule` with the
    /// validation message when the updated configuration is invalid; in that last case the
    /// replacement stays in place.
    pub fn update_rule(&mut self, bucket: &BucketName, rule: &LifecycleRule) -> (r: Result<
        (),
        LifecycleError,
    >)
        requires
            old(self).wf(),
            rule.wf(),
        ensures
            final(self).wf(),
            final(self).processed() == old(self).processed(),
            !old(self).configs().dom().contains(bucket@) ==> (r matches Err(e) && e@
                == (LifecycleErrorView::ConfigurationNotFound { bucket: bucket@ })
                && final(self).configs() == old(self).configs()),
            old(self).configs().dom().contains(bucket@) ==> {
                let before = old(self).configs()[bucket@];
                match first_rule_with_id(before.rules@, rule.id@) {
                    None => r matches Err(e) && e@ == (LifecycleErrorView::InvalidRule {
                        rule_id: rule.id@,
                        reason: "Rule not found"@,
                    }) && final(self).configs() == old(self).configs(),
                    Some(i) => {
                        let after = final(self).configs()[bucket@];
                        &&& final(self).configs().dom() == old(self).configs().dom()
                        &&& forall|b: Seq<char>|
                            b != bucket@ ==> #[trigger] final(self).configs().dom().contains(b)
                                ==> final(self).configs()[b] == old(self).configs()[b]
                        &&& after.bucket@ == before.bucket@
                        &&& after.rules@.len() == before.rules@.len()
                        &&& after.rules@[i].same_as(*rule)
                        &&& forall|j: int|
                            0 <= j < before.rules@.len() && j != i ==> #[trigger] after.rules@[j]
                                == before.rules@[j]
                        &&& match after.validation_error() {
                            Some(e) => r matches Err(err) && err@ == (LifecycleErrorView::InvalidRule {
                                rule_id: rule.id@,
                                reason: e.message(),
                            }),
                            None => r is Ok,
                        }
                    },
                }
            },
    {
        let idx = match keyed_find(&self.configurations, bucket.as_str()) {
            Some(i) => i,
            None => {
                return Err(LifecycleError::ConfigurationNotFound { bucket: bucket.clone() });
            },
        };
        let pos = match find_rule(&self.configurations[idx].1.rules, rule.id.as_str()) {
            Some(j) => j,
            None => {
                return Err(
                    LifecycleError::InvalidRule {
                        rule_id: rule.id.clone(),
                        reason: String::from_str("Rule not found"),
                    },
                );
            },
        };
        let ghost before = self.configurations@;
        proof {
            lemma_keyed_map(before);
            assert(keyed_map(before)[bucket@] == before[idx as int].1);
            assert(first_rule_with_id(before[idx as int].1.rules@, rule.id@) == Some(pos as int));
        }
        let (name, mut config) = self.configurations.remove(idx);
        assert(config == before[idx as int].1);
        let replacement = rule.clone();
        config.rules.set(pos, replacement);
        let outcome = config.validate();
        let ghost stored = config;
        self.configurations.insert(idx, (name, config));
        proof {
            let after = self.configurations@;
            assert forall|j: int| 0 <= j < after.len() && j != idx implies #[trigger] after[j]
                == before[j] by {}
            assert(names_distinct(after)) by {
                assert forall|a: int, b: int| 0 <= a < b < after.len() implies (
                #[trigger] after[a]).0@ != (#[trigger] after[b]).0@ by {
                    assert(after[a].0@ == before[a].0@);
                    assert(after[b].0@ == before[b].0@);
                }
            }
            lemma_keyed_map(after);
            assert forall|i: int| 0 <= i < after.len() implies rules_wf(
                (#[trigger] after[i]).1.rules@,
            ) by {
                if i == idx {
                    assert(rules_wf(before[i].1.rules@));
                    assert forall|j: int| 0 <= j < after[i].1.rules@.len() implies (
                    #[trigger] after[i].1.rules@[j]).wf() by {
                        assert(before[i].1.rules@[j].wf());
                    }
                }
            }
            assert(keyed_map(after).dom() =~= keyed_map(before).dom()) by {
                assert forall|n: Seq<char>| #[trigger] keyed_map(after).dom().contains(n) <==> keyed_map(
                    before,
                ).dom().contains(n) by {
                    if keyed_map(after).dom().contains(n) {
                        let j = choose|j: int| 0 <= j < after.len() && (#[trigger] after[j]).0@ == n;
                        assert(before[j].0@ == after[j].0@);
                    }
                    if keyed_map(before).dom().contains(n) {
                        let j = choose|j: int| 0 <= j < before.len() && (#[trigger] before[j]).0@ == n;
                        assert(before[j].0@ == after[j].0@);
                    }
                }
            }
            assert forall|b: Seq<char>|
                b != bucket@ && #[trigger] keyed_map(after).dom().contains(b) implies keyed_map(
                after,
            )[b] == keyed_map(before)[b] by {
                let j = choose|j: int| 0 <= j < after.len() && (#[trigger] after[j]).0@ == b;
                assert(keyed_map(after)[after[j].0@] == after[j].1);
                assert(after[j] == before[j]);
                assert(keyed_map(before)[before[j].0@] == before[j].1);
            }
            assert(keyed_map(after)[bucket@] == after[idx as int].1);
            assert(after[idx as int].1 == stored);
        }
        match outcome {
            Ok(()) => Ok(()),
            Err(e) => Err(LifecycleError::InvalidRule { rule_id: rule.id.clone(), reason: e.message() }),
        }
    }

    /// The names of the configured buckets that are valid bucket names, in the order the
    /// configurations were first stored.
    pub closed spec fn configured_names(self) -> Seq<Seq<char>> {
        valid_bucket_names(self.configurations@)
    }

    /// The configured names are exactly the stored buckets with valid names, each once.
    pub proof fn lemma_configured_names(self)
        requires
            self.wf(),
        ensures
            forall|b: Seq<char>|
                #[trigger] self.configured_names().contains(b) <==> (self.configs().dom().contains(b)
                    && bucket_name_error(b) is None),
            self.configured_names().no_duplicates(),
    {
        lemma_keyed_map(self.configurations@);
        lemma_valid_bucket_names(self.configurations@);
    }

    /// The names of the buckets with a stored configuration that are valid bucket names.
    pub fn list_configured_buckets(&self) -> (r: Result<Vec<BucketName>, LifecycleError>)
        requires
            self.wf(),
        ensures
            match r {
                Ok(v) => bucket_views(v@) == self.configured_names(),
                Err(_) => false,
            },
    {
        let mut out: Vec<BucketName> = Vec::new();
        let mut i: usize = 0;
        assert(self.configurations@.take(0) =~= Seq::<(String, LifecycleConfiguration)>::empty());
        assert(bucket_views(out@) =~= Seq::<Seq<char>>::empty());
        while i < self.configurations.len()
            invariant
                i <= self.configurations@.len(),
                bucket_views(out@) == valid_bucket_names(self.configurations@.take(i as int)),
            decreases self.configurations@.len() - i,
        {
            let ghost before_out = out@;
            let ghost t = self.configurations@.take(i + 1);
            assert(t.drop_last() =~= self.configurations@.take(i as int));
            assert(t.last() == self.configurations@[i as int]);
            match BucketName::new(self.configurations[i].0.clone()) {
                Ok(b) => {
                    out.push(b);
                    assert(bucket_views(out@) =~= bucket_views(before_out).push(
                        self.configurations@[i as int].0@,
                    ));
                },
                Err(_) => {},
            }
            i = i + 1;
        }
        assert(self.configurations@.take(self.configurations@.len() as int) =~= self.configurations@);
        Ok(out)
    }

    /// The last processing time recorded for the bucket, if any.
    pub fn get_last_processed_time(&self, bucket: &BucketName) -> (r: Result<
        Option<UtcTime>,
        LifecycleError,
    >)
        requires
            self.wf(),
        ensures
            match r {
                Ok(Some(t)) => self.processed().dom().contains(bucket@) && t == self.processed()[bucket@],
                Ok(None) => !self.processed().dom().contains(bucket@),
                Err(_) => false,
            },
    {
        match keyed_find(&self.last_processed, bucket.as_str()) {
            Some(i) => Ok(Some(self.last_processed[i].1)),
            None => Ok(None),
        }
    }

    /// Records the last processing time of the bucket.
    pub fn set_last_processed_time(&mut self, bucket: &BucketName, time: UtcTime) -> (r: Result<
        (),
        LifecycleError,
    >)
        requires
            old(self).wf(),
        ensures
            r is Ok,
            final(self).wf(),
            final(self).configs() == old(self).configs(),
            final(self).processed() == old(self).processed().insert(bucket@, time),
    {
        keyed_set(&mut self.last_processed, String::from_str(bucket.as_str()), time);
        Ok(())
    }
}

/// The views of a list of bucket names.
pub open spec fn bucket_views(v: Seq<BucketName>) -> Seq<Seq<char>> {
    v.map_values(|b: BucketName| b@)
}

/// The names of the entries that are valid bucket names, in order.
pub open spec fn valid_bucket_names(s: Seq<(String, LifecycleConfiguration)>) -> Seq<Seq<char>>
    decreases s.len(),
{
    if s.len() == 0 {
        Seq::empty()
    } else if bucket_name_error(s.last().0@) is None {
        valid_bucket_names(s.drop_last()).push(s.last().0@)
    } else {
        valid_bucket_names(s.drop_last())
    }
}

proof fn lemma_valid_bucket_names(s: Seq<(String, LifecycleConfiguration)>)
    requires
        names_distinct(s),
    ensures
        forall|b: Seq<char>|
            #[trigger] valid_bucket_names(s).contains(b) <==> (exists|i: int|
                0 <= i < s.len() && (#[trigger] s[i]).0@ == b) && bucket_name_error(b) is None,
        valid_bucket_names(s).no_duplicates(),
    decreases s.len(),
{
    if s.len() > 0 {
        let t = s.drop_last();
        assert(names_distinct(t)) by {
            assert forall|i: int, j: int| 0 <= i < j < t.len() implies (#[trigger] t[i]).0@ != (
            #[trigger] t[j]).0@ by {
                assert(t[i] == s[i] && t[j] == s[j]);
            }
        }
        lemma_valid_bucket_names(t);
        let last = s.last().0@;
        assert forall|b: Seq<char>| #[trigger] valid_bucket_names(s).contains(b) <==> (exists|i: int|
            0 <= i < s.len() && (#[trigger] s[i]).0@ == b) && bucket_name_error(b) is None by {
            if valid_bucket_names(s).contains(b) {
                if b == last && bucket_name_error(last) is None {
                    assert(s[s.len() - 1].0@ == b);
                } else {
                    assert(valid_bucket_names(t).contains(b)) by {
                        if bucket_name_error(last) is None {
                            let k = choose|k: int|
                                0 <= k < valid_bucket_names(s).len() && valid_bucket_names(s)[k] == b;
                            assert(k < valid_bucket_names(t).len());
                            assert(valid_bucket_names(t)[k] == b);
                        }
                    }
                    let i = choose|i: int| 0 <= i < t.len() && (#[trigger] t[i]).0@ == b;
                    assert(s[i] == t[i]);
                }
            }
            if (exists|i: int| 0 <= i < s.len() && (#[trigger] s[i]).0@ == b) && bucket_name_error(b)
                is None {
                let i = choose|i: int| 0 <= i < s.len() && (#[trigger] s[i]).0@ == b;
                if i == s.len() - 1 {
                    assert(valid_bucket_names(s).last() == b);
                } else {
                    assert(s[i] == t[i]);
                    assert(valid_bucket_names(t).contains(b));
                    let k = choose|k: int|
                        0 <= k < valid_bucket_names(t).len() && valid_bucket_names(t)[k] == b;
                    assert(valid_bucket_names(s)[k] == b);
                }
            }
        }
        if bucket_name_error(last) is None {
            assert(!valid_bucket_names(t).contains(last)) by {
                if valid_bucket_names(t).contains(last) {
                    let i = choose|i: int| 0 <= i < t.len() && (#[trigger] t[i]).0@ == last;
                    assert(s[i] == t[i]);
                    assert(s[i].0@ != s[s.len() - 1].0@);
                }
            }
            let u = valid_bucket_names(t);
            assert forall|a: int, c: int|
                0 <= a < c < u.push(last).len() implies u.push(last)[a] != u.push(last)[c] by {
                if c == u.len() {
                    assert(u.contains(u[a]));
                }
            }
        }
    }
}

/// What a read gives back of a write: after a configuration is saved for a bucket, the
/// configuration read for that bucket holds the same rules, and the configurations of other
/// buckets are untouched.
pub proof fn lemma_read_after_save(
    before: Map<Seq<char>, LifecycleConfiguration>,
    after: Map<Seq<char>, LifecycleConfiguration>,
    bucket: Seq<char>,
    config: LifecycleConfiguration,
    read: LifecycleConfiguration,
    other: Seq<char>,
)
    requires
        after.dom() == before.dom().insert(bucket),
        same_config(after[bucket], config),
        forall|b: Seq<char>|
            b != bucket ==> #[trigger] after.dom().contains(b) ==> after[b] == before[b],
        same_config(read, after[bucket]),
        other != bucket,
    ensures
        after.dom().contains(bucket),
        same_config(read, config),
        after.dom().contains(other) == before.dom().contains(other),
        after.dom().contains(other) ==> after[other] == before[other],
{
    assert forall|i: int| 0 <= i < read.rules@.len() implies (#[trigger] read.rules@[i]).same_as(
        config.rules@[i],
    ) by {
        assert(read.rules@[i].same_as(after[bucket].rules@[i]));
        assert(after[bucket].rules@[i].same_as(config.rules@[i]));
    }
}

} // verus!
