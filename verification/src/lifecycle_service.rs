use vstd::prelude::*;
use vstd::string::*;

use crate::errors::{LifecycleError, LifecycleErrorView};
use crate::evaluation::{
    action_debug, action_debug_text, action_model, action_models, action_wf, actions_wf, evaluate_rules,
    lemma_rules_actions_same, request_facts, rules_actions, ActionModel, ObjectFacts,
};
use crate::keyed::{keyed_find, keyed_map, keyed_set, names_distinct};
use crate::lifecycle::{
    action_view, rules_wf, same_rules, ApplicableAction, EvaluateLifecycleRequest,
    LifecycleAction, LifecycleActionView, LifecycleConfiguration, LifecycleEvaluationResult,
    LifecycleRule, RuleStatus,
};
use crate::lifecycle_repository::{
    bucket_views, find_rule, first_rule_with_id, same_config, InMemoryLifecycleRepository,
};
use crate::errors::StorageError;
use crate::memory_store::{is_listing_of, object_path, ListedObject};
use crate::store::listing_outcome;
use crate::ports::{
    AppliedAction, BucketLifecycleResults, FailedAction, ObjectInfo, ProcessingError,
    ProcessingStatus, ValidationError, ValidationResult, ValidationWarning, same_results,
};
use crate::store::{ApacheObjectStoreAdapter, VersionedApacheObjectStoreAdapter};
use crate::tags::TagMap;
use crate::text::{chars_of, concat_str, split_on, string_from_subrange};
use crate::time::{elapsed_whole_secs, now, UtcTime, SECS_PER_DAY};
use crate::value_objects::{bucket_name_error, BucketName, ObjectKey};

verus! {

/// The part of an object key before its first `/`, which names the bucket.
pub open spec fn bucket_of_key(key: Seq<char>) -> Seq<char> {
    split_on(key, '/')[0]
}

proof fn lemma_split_first(s: Seq<char>, d: char, n: int)
    requires
        0 <= n <= s.len(),
        forall|j: int| 0 <= j < n ==> s[j] != d,
    ensures
        split_on(s.take(n), d).len() == 1,
        split_on(s.take(n), d)[0] == s.take(n),
    decreases n,
{
    if n > 0 {
        lemma_split_first(s, d, n - 1);
        assert(s.take(n).drop_last() =~= s.take(n - 1));
    } else {
        assert(s.take(0) =~= Seq::<char>::empty());
    }
}

proof fn lemma_split_first_stable(s: Seq<char>, d: char, n: int)
    requires
        0 <= n <= s.len(),
        split_on(s.take(n), d).len() >= 2,
    ensures
        split_on(s, d)[0] == split_on(s.take(n), d)[0],
        split_on(s, d).len() >= 2,
    decreases s.len() - n,
{
    if n < s.len() {
        let t = s.take(n + 1);
        assert(t.drop_last() =~= s.take(n));
        lemma_split_first_stable(s, d, n + 1);
    } else {
        assert(s.take(n) =~= s);
    }
}

proof fn lemma_split_len(s: Seq<char>, d: char)
    ensures
        split_on(s, d).len() >= 1,
    decreases s.len(),
{
    if s.len() > 0 {
        lemma_split_len(s.drop_last(), d);
    }
}

/// The characters of the key before its first `/`.
fn first_segment(key: &str) -> (r: String)
    ensures
        r@ == bucket_of_key(key@),
{
    let chars = chars_of(key);
    let mut i: usize = 0;
    while i < chars.len()
        invariant
            chars@ == key@,
            i <= chars@.len(),
            forall|j: int| 0 <= j < i ==> chars@[j] != '/',
        decreases chars@.len() - i,
    {
        if chars[i] == '/' {
            proof {
                lemma_split_first(chars@, '/', i as int);
                let t = chars@.take(i + 1);
                assert(t.drop_last() =~= chars@.take(i as int));
                assert(t.last() == '/');
                assert(split_on(t, '/') == split_on(t.drop_last(), '/').push(Seq::<char>::empty()));
                assert(split_on(t, '/').len() == 2);
                assert(split_on(t, '/')[0] == chars@.take(i as int));
                lemma_split_first_stable(chars@, '/', i + 1);
                assert(split_on(chars@, '/')[0] == chars@.take(i as int));
            }
            let r = string_from_subrange(chars.as_slice(), 0, i);
            assert(r@ =~= chars@.take(i as int));
            return r;
        }
        i = i + 1;
    }
    proof {
        lemma_split_first(chars@, '/', chars@.len() as int);
        assert(chars@.take(chars@.len() as int) =~= chars@);
    }
    let r = string_from_subrange(chars.as_slice(), 0, chars.len());
    assert(r@ =~= chars@);
    r
}

/// The actions that the rules of the configured buckets call for, bucket after bucket in
/// the order given, and rule after rule within each.
pub open spec fn configured_actions(
    configs: Map<Seq<char>, LifecycleConfiguration>,
    names: Seq<Seq<char>>,
    f: ObjectFacts,
    now: int,
) -> Seq<ActionModel>
    decreases names.len(),
{
    if names.len() == 0 {
        Seq::empty()
    } else {
        configured_actions(configs, names.drop_last(), f, now) + rules_actions(
            configs[names.last()].rules@,
            f,
            now,
        )
    }
}

/// The actions that evaluation reports for an object whose key names a valid bucket. When
/// that bucket has a configuration, the actions of its rules; otherwise the request names
/// no configured bucket of its own, and the actions of the rules of every configured
/// bucket, in the order of `names`.
pub open spec fn evaluation_actions(
    configs: Map<Seq<char>, LifecycleConfiguration>,
    names: Seq<Seq<char>>,
    f: ObjectFacts,
    now: int,
) -> Seq<ActionModel> {
    let b = bucket_of_key(f.key);
    if configs.dom().contains(b) {
        rules_actions(configs[b].rules@, f, now)
    } else {
        configured_actions(configs, names, f, now)
    }
}

/// What evaluating the object reports: `ValidationFailed` when the first part of the key
/// is no valid bucket name; otherwise the actions of [`evaluation_actions`].
pub open spec fn evaluation_outcome(
    configs: Map<Seq<char>, LifecycleConfiguration>,
    names: Seq<Seq<char>>,
    f: ObjectFacts,
    now: int,
) -> Result<Seq<ActionModel>, LifecycleErrorView> {
    match bucket_name_error(bucket_of_key(f.key)) {
        Some(e) => Err(
            LifecycleErrorView::ValidationFailed {
                errors: seq!["Invalid bucket name in key: "@ + e.message()],
            },
        ),
        None => Ok(evaluation_actions(configs, names, f, now)),
    }
}

/// A plain model of a validation finding: rule id, field, message.
pub struct FindingModel {
    pub rule_id: Option<Seq<char>>,
    pub field: Seq<char>,
    pub message: Seq<char>,
}

/// The errors that validating a configuration finds: the configuration's own error, then
/// each rule's.
pub open spec fn config_findings(config: LifecycleConfiguration) -> Seq<FindingModel> {
    own_findings(config) + rule_findings(config.rules@)
}

/// The configuration's own validation error, as a finding.
pub open spec fn own_findings(config: LifecycleConfiguration) -> Seq<FindingModel> {
    match config.validation_error() {
        Some(e) => seq![FindingModel { rule_id: None, field: "configuration"@, message: e.message() }],
        None => Seq::empty(),
    }
}

/// Each rule's validation error, in order.
pub open spec fn rule_findings(rules: Seq<LifecycleRule>) -> Seq<FindingModel>
    decreases rules.len(),
{
    if rules.len() == 0 {
        Seq::empty()
    } else {
        rule_findings(rules.drop_last()) + match rules.last().validation_error() {
            Some(e) => seq![
                FindingModel { rule_id: Some(rules.last().id@), field: "rule"@, message: e.message() },
            ],
            None => Seq::empty(),
        }
    }
}

/// The warnings for each rule, in order: no actions, and a filter that passes everything.
pub open spec fn rule_warnings(rules: Seq<LifecycleRule>) -> Seq<(Option<Seq<char>>, Seq<char>)>
    decreases rules.len(),
{
    if rules.len() == 0 {
        Seq::empty()
    } else {
        let r = rules.last();
        rule_warnings(rules.drop_last()) + (if !r.spec_has_any_action() {
            seq![(Some(r.id@), "Rule has no actions defined"@)]
        } else {
            Seq::empty()
        }) + (if r.filter.spec_is_empty() {
            seq![(Some(r.id@), "Rule filter matches all objects - this may affect performance"@)]
        } else {
            Seq::empty()
        })
    }
}

/// The model of a validation error entry.
pub open spec fn finding_model(e: ValidationError) -> FindingModel {
    FindingModel {
        rule_id: match e.rule_id {
            Some(s) => Some(s@),
            None => None,
        },
        field: e.field@,
        message: e.message@,
    }
}

/// The model of a warning entry.
pub open spec fn warning_model(w: ValidationWarning) -> (Option<Seq<char>>, Seq<char>) {
    (
        match w.rule_id {
            Some(s) => Some(s@),
            None => None,
        },
        w.message@,
    )
}

/// The messages of the findings.
pub open spec fn finding_messages(v: Seq<FindingModel>) -> Seq<Seq<char>> {
    v.map_values(|f: FindingModel| f.message)
}

/// A model of what applying one action gives: `Ok` with the action type, or `Err` with the
/// error message.
pub open spec fn application_outcome(a: LifecycleActionView) -> Result<Seq<char>, Seq<char>> {
    match a {
        LifecycleActionView::Expiration { .. } => Ok("expiration"@),
        LifecycleActionView::Transition { .. } => Err(
            (LifecycleErrorView::ActionExecutionFailed {
                action: "transition"@,
                reason: "Storage class transitions not yet implemented"@,
            }).message(),
        ),
        LifecycleActionView::ExpireDeleteMarker { .. } => Ok("delete_marker_expiration"@),
        LifecycleActionView::NonCurrentVersionExpiration { .. } => Ok(
            "noncurrent_version_expiration"@,
        ),
        LifecycleActionView::NonCurrentVersionTransition { .. } => Ok(
            "noncurrent_version_transition"@,
        ),
        LifecycleActionView::AbortIncompleteMultipartUpload { .. } => Ok("multipart_cleanup"@),
    }
}

/// The number of actions that apply without error.
pub open spec fn applied_count(actions: Seq<ActionModel>) -> nat
    decreases actions.len(),
{
    if actions.len() == 0 {
        0
    } else {
        applied_count(actions.drop_last()) + if application_outcome(actions.last().action) is Ok {
            1nat
        } else {
            0nat
        }
    }
}

/// A model of a processing error: object key, rule id, message.
pub struct ErrorModel {
    pub key: Seq<char>,
    pub rule_id: Seq<char>,
    pub message: Seq<char>,
}

/// The errors of the actions that fail on the object.
pub open spec fn failure_errors(actions: Seq<ActionModel>, key: Seq<char>) -> Seq<ErrorModel>
    decreases actions.len(),
{
    if actions.len() == 0 {
        Seq::empty()
    } else {
        failure_errors(actions.drop_last(), key) + match application_outcome(
            actions.last().action,
        ) {
            Err(m) => seq![ErrorModel { key, rule_id: actions.last().rule_id, message: m }],
            Ok(_) => Seq::empty(),
        }
    }
}

/// Some action expires the object.
pub open spec fn expires(actions: Seq<ActionModel>) -> bool {
    exists|i: int| 0 <= i < actions.len() && (#[trigger] actions[i]).action is Expiration
}

/// The facts that bucket processing evaluates for a listed object: no tags, created at its
/// modification time, no delete marker, the current version.
pub open spec fn listed_facts(info: ObjectInfo) -> ObjectFacts {
    ObjectFacts {
        key: info.key@,
        tags: Map::empty(),
        created: info.last_modified@,
        is_delete_marker: false,
        is_current_version: true,
    }
}

/// The model of a processing error entry.
pub open spec fn error_model(e: ProcessingError) -> ErrorModel {
    ErrorModel { key: e.object_key@, rule_id: e.rule_id@, message: e.error@ }
}

/// The models of processing error entries.
pub open spec fn error_models(v: Seq<ProcessingError>) -> Seq<ErrorModel> {
    v.map_values(|e: ProcessingError| error_model(e))
}

/// Counts and errors of processing the listed objects in order: each object counts as
/// processed; an object whose evaluation calls for actions counts as affected, its actions
/// that apply count as applied, and those that fail add errors; a failed evaluation adds an
/// `evaluation` error.
pub open spec fn processing_summary(
    configs: Map<Seq<char>, LifecycleConfiguration>,
    names: Seq<Seq<char>>,
    listing: Seq<ObjectInfo>,
    now: int,
) -> (nat, nat, Seq<ErrorModel>)
    decreases listing.len(),
{
    if listing.len() == 0 {
        (0, 0, Seq::empty())
    } else {
        let (affected, applied, errors) = processing_summary(configs, names, listing.drop_last(), now);
        let info = listing.last();
        match evaluation_outcome(configs, names, listed_facts(info), now) {
            Err(e) => (
                affected,
                applied,
                errors.push(ErrorModel { key: info.key@, rule_id: "evaluation"@, message: e.message() }),
            ),
            Ok(actions) => if actions.len() == 0 {
                (affected, applied, errors)
            } else {
                (
                    affected + 1,
                    applied + applied_count(actions),
                    errors + failure_errors(actions, info.key@),
                )
            },
        }
    }
}

/// The store after processing: each object for which an expiration was called is removed.
pub open spec fn processed_contents(
    configs: Map<Seq<char>, LifecycleConfiguration>,
    names: Seq<Seq<char>>,
    listing: Seq<ObjectInfo>,
    now: int,
    contents: Map<Seq<char>, Seq<u8>>,
) -> Map<Seq<char>, Seq<u8>>
    decreases listing.len(),
{
    if listing.len() == 0 {
        contents
    } else {
        let before = processed_contents(configs, names, listing.drop_last(), now, contents);
        let info = listing.last();
        match evaluation_outcome(configs, names, listed_facts(info), now) {
            Ok(actions) => if expires(actions) {
                before.remove(object_path(info.key@))
            } else {
                before
            },
            Err(_) => before,
        }
    }
}

/// Lifecycle service over an in-memory repository and an in-memory object store.
pub struct LifecycleServiceImpl {
    lifecycle_repo: InMemoryLifecycleRepository,
    object_store: ApacheObjectStoreAdapter,
    versioned_store: VersionedApacheObjectStoreAdapter,
    processing_status: Vec<(String, ProcessingStatus)>,
}

impl LifecycleServiceImpl {
    /// The stored lifecycle configurations, by bucket name.
    pub closed spec fn configs(self) -> Map<Seq<char>, LifecycleConfiguration> {
        self.lifecycle_repo.configs()
    }

    /// The configured buckets with valid names, in the order their configurations were
    /// first stored.
    pub closed spec fn configured_names(self) -> Seq<Seq<char>> {
        self.lifecycle_repo.configured_names()
    }

    /// The objects held by the object store, by path.
    pub closed spec fn store_contents(self) -> Map<Seq<char>, Seq<u8>> {
        self.object_store.contents()
    }

    /// The processing status recorded for each bucket.
    pub closed spec fn statuses(self) -> Map<Seq<char>, ProcessingStatus> {
        keyed_map(self.processing_status@)
    }

    /// The repository and the status table are well formed.
    pub closed spec fn wf(self) -> bool {
        self.lifecycle_repo.wf() && names_distinct(self.processing_status@)
    }

    /// A service over the repository and the stores, with no processing recorded.
    pub fn new(
        lifecycle_repo: InMemoryLifecycleRepository,
        object_store: ApacheObjectStoreAdapter,
        versioned_store: VersionedApacheObjectStoreAdapter,
    ) -> (r: LifecycleServiceImpl)
        requires
            lifecycle_repo.wf(),
        ensures
            r.wf(),
            r.configs() == lifecycle_repo.configs(),
            r.store_contents() == object_store.contents(),
            r.statuses() == Map::<Seq<char>, ProcessingStatus>::empty(),
    {
        LifecycleServiceImpl {
            lifecycle_repo,
            object_store,
            versioned_store,
            processing_status: Vec::new(),
        }
    }

    /// Takes up another object store, handing back the one held.
    pub fn replace_object_store(&mut self, store: ApacheObjectStoreAdapter) -> (r: ApacheObjectStoreAdapter)
        requires
            old(self).wf(),
        ensures
            final(self).wf(),
            r.contents() == old(self).store_contents(),
            final(self).store_contents() == store.contents(),
            final(self).configs() == old(self).configs(),
            final(self).configured_names() == old(self).configured_names(),
            final(self).statuses() == old(self).statuses(),
    {
        let mut held = store;
        std::mem::swap(&mut self.object_store, &mut held);
        held
    }

    /// The object store.
    pub fn object_store(&self) -> (r: &ApacheObjectStoreAdapter)
        ensures
            r.contents() == self.store_contents(),
    {
        &self.object_store
    }

    /// The object store, for changes.
    pub fn object_store_mut(&mut self) -> (r: &mut ApacheObjectStoreAdapter)
        requires
            old(self).wf(),
        ensures
            r.contents() == old(self).store_contents(),
            final(self).store_contents() == final(r).contents(),
            final(self).configs() == old(self).configs(),
            final(self).configured_names() == old(self).configured_names(),
            final(self).statuses() == old(self).statuses(),
            final(self).wf(),
    {
        &mut self.object_store
    }

    /// Validates the configuration: the configuration's own validation, then each rule's;
    /// warnings for rules without actions and for rules whose filter passes everything.
    pub fn validate_configuration(&self, config: &LifecycleConfiguration) -> (r: Result<
        ValidationResult,
        LifecycleError,
    >)
        requires
            rules_wf(config.rules@),
        ensures
            match r {
                Ok(res) => res.errors@.map_values(|e: ValidationError| finding_model(e))
                    == config_findings(*config) && res.warnings@.map_values(
                    |w: ValidationWarning| warning_model(w),
                ) == rule_warnings(config.rules@) && res.is_valid == (config_findings(
                    *config,
                ).len() == 0),
                Err(_) => false,
            },
    {
        let mut errors: Vec<ValidationError> = Vec::new();
        let mut warnings: Vec<ValidationWarning> = Vec::new();
        match config.validate() {
            Err(e) => {
                errors.push(
                    ValidationError {
                        rule_id: None,
                        field: String::from_str("configuration"),
                        message: e.message(),
                    },
                );
            },
            Ok(()) => {},
        }
        let ghost own = own_findings(*config);
        assert(errors@.map_values(|e: ValidationError| finding_model(e)) =~= own);
        assert(warnings@.map_values(|w: ValidationWarning| warning_model(w)) =~= Seq::<
            (Option<Seq<char>>, Seq<char>),
        >::empty());
        assert(own + Seq::<FindingModel>::empty() =~= own);
        let mut i: usize = 0;
        assert(config.rules@.take(0) =~= Seq::<LifecycleRule>::empty());
        while i < config.rules.len()
            invariant
                rules_wf(config.rules@),
                own == own_findings(*config),
                i <= config.rules@.len(),
                errors@.map_values(|e: ValidationError| finding_model(e)) == own + rule_findings(
                    config.rules@.take(i as int),
                ),
                warnings@.map_values(|w: ValidationWarning| warning_model(w)) == rule_warnings(
                    config.rules@.take(i as int),
                ),
            decreases config.rules@.len() - i,
        {
            let rule = &config.rules[i];
            assert(rule.wf());
            let ghost before_e = errors@;
            let ghost before_w = warnings@;
            let ghost t = config.rules@.take(i + 1);
            assert(t.drop_last() =~= config.rules@.take(i as int));
            assert(t.last() == config.rules@[i as int]);
            match rule.validate() {
                Err(e) => {
                    errors.push(
                        ValidationError {
                            rule_id: Some(rule.id.clone()),
                            field: String::from_str("rule"),
                            message: e.message(),
                        },
                    );
                    assert(errors@.map_values(|e: ValidationError| finding_model(e))
                        =~= before_e.map_values(|e: ValidationError| finding_model(e)).push(
                        FindingModel {
                            rule_id: Some(rule.id@),
                            field: "rule"@,
                            message: rule.validation_error()->0.message(),
                        },
                    ));
                },
                Ok(()) => {
                    assert(before_e.map_values(|e: ValidationError| finding_model(e)) + Seq::<
                        FindingModel,
                    >::empty() =~= before_e.map_values(|e: ValidationError| finding_model(e)));
                },
            }
            assert(errors@.map_values(|e: ValidationError| finding_model(e)) =~= own
                + rule_findings(t));
            let ghost mid_w = warnings@;
            if !rule.has_any_action() {
                warnings.push(
                    ValidationWarning {
                        rule_id: Some(rule.id.clone()),
                        message: String::from_str("Rule has no actions defined"),
                    },
                );
            }
            let ghost mid_w2 = warnings@;
            if rule.filter.is_empty() {
                warnings.push(
                    ValidationWarning {
                        rule_id: Some(rule.id.clone()),
                        message: String::from_str(
                            "Rule filter matches all objects - this may affect performance",
                        ),
                    },
                );
            }
            assert(warnings@.map_values(|w: ValidationWarning| warning_model(w)) =~= rule_warnings(
                t,
            )) by {
                assert(mid_w == before_w);
                if !rule.spec_has_any_action() {
                    assert(mid_w2 =~= before_w.push(mid_w2.last()));
                } else {
                    assert(mid_w2 == before_w);
                }
            }
            i = i + 1;
        }
        assert(config.rules@.take(config.rules@.len() as int) =~= config.rules@);
        let is_valid = errors.len() == 0;
        Ok(ValidationResult { is_valid, errors, warnings })
    }

    /// Validates the configuration and, when nothing is wrong, stores it for the bucket;
    /// otherwise fails with `ValidationFailed` listing the messages of the errors found.
    pub fn set_lifecycle_configuration(&mut self, bucket: &BucketName, config: LifecycleConfiguration) -> (r:
        Result<(), LifecycleError>)
        requires
            old(self).wf(),
            rules_wf(config.rules@),
        ensures
            final(self).wf(),
            final(self).store_contents() == old(self).store_contents(),
            final(self).statuses() == old(self).statuses(),
            configuration_set(old(self).configs(), final(self).configs(), bucket@, config, r),
    {
        let validation = match self.validate_configuration(&config) {
            Ok(v) => v,
            Err(e) => {
                return Err(e);
            },
        };
        if !validation.is_valid {
            let mut messages: Vec<String> = Vec::new();
            let mut i: usize = 0;
            while i < validation.errors.len()
                invariant
                    i <= validation.errors@.len(),
                    messages@.len() == i,
                    forall|k: int|
                        0 <= k < i ==> (#[trigger] messages@[k])@ == validation.errors@[k].message@,
                decreases validation.errors@.len() - i,
            {
                messages.push(validation.errors[i].message.clone());
                i = i + 1;
            }
            proof {
                let findings = validation.errors@.map_values(|e: ValidationError| finding_model(e));
                assert(crate::text::string_views(messages@) =~= finding_messages(findings));
            }
            return Err(LifecycleError::ValidationFailed { errors: messages });
        }
        proof {
            if config.validation_error() is Some {
                assert(own_findings(config).len() == 1);
            }
        }
        match self.lifecycle_repo.save_configuration(bucket, &config) {
            Ok(()) => Ok(()),
            Err(e) => {
                let m = e.message();
                Err(
                    LifecycleError::RepositoryError {
                        message: concat_str(
                            "Failed to save lifecycle configuration: ",
                            m.as_str(),
                        ),
                    },
                )
            },
        }
    }

    /// The configuration stored for the bucket, if any.
    pub fn get_lifecycle_configuration(&self, bucket: &BucketName) -> (r: Result<
        Option<LifecycleConfiguration>,
        LifecycleError,
    >)
        requires
            self.wf(),
        ensures
            match r {
                Ok(Some(c)) => self.configs().dom().contains(bucket@) && same_config(
                    c,
                    self.configs()[bucket@],
                ) && rules_wf(c.rules@),
                Ok(None) => !self.configs().dom().contains(bucket@),
                Err(_) => false,
            },
    {
        self.lifecycle_repo.get_configuration(bucket)
    }

    /// Removes the bucket's configuration.
    pub fn delete_lifecycle_configuration(&mut self, bucket: &BucketName) -> (r: Result<
        (),
        LifecycleError,
    >)
        requires
            old(self).wf(),
        ensures
            r is Ok,
            final(self).wf(),
            final(self).configs() == old(self).configs().remove(bucket@),
            final(self).store_contents() == old(self).store_contents(),
            final(self).statuses() == old(self).statuses(),
    {
        self.lifecycle_repo.delete_configuration(bucket)
    }

    /// The bucket named by the key's first part, or `ValidationFailed` when it is no valid
    /// bucket name.
    fn extract_bucket_from_key(&self, key: &ObjectKey) -> (r: Result<BucketName, LifecycleError>)
        ensures
            match bucket_name_error(bucket_of_key(key@)) {
                Some(e) => r matches Err(err) && err@ == (LifecycleErrorView::ValidationFailed {
                    errors: seq!["Invalid bucket name in key: "@ + e.message()],
                }),
                None => r matches Ok(b) && b@ == bucket_of_key(key@),
            },
    {
        let first = first_segment(key.as_str());
        match BucketName::new(first) {
            Ok(b) => Ok(b),
            Err(e) => {
                let m = e.message();
                let mut errors: Vec<String> = Vec::new();
                errors.push(concat_str("Invalid bucket name in key: ", m.as_str()));
                assert(crate::text::string_views(errors@) =~= seq![
                    "Invalid bucket name in key: "@ + e@.message(),
                ]);
                Err(LifecycleError::ValidationFailed { errors })
            },
        }
    }

    /// The actions that the rules call for at `now`: `ValidationFailed` when the first part
    /// of the key is no valid bucket name; otherwise those of the rules of that bucket when it
    /// has a configuration, else those of every configured bucket.
    pub fn evaluate_object_lifecycle_at(&self, request: &EvaluateLifecycleRequest, now: &UtcTime) -> (r:
        Result<LifecycleEvaluationResult, LifecycleError>)
        requires
            self.wf(),
            request.wf(),
            now.wf(),
        ensures
            match evaluation_outcome(self.configs(), self.configured_names(), request_facts(*request), now@) {
                Ok(actions) => r matches Ok(res) && action_models(res.actions_to_apply@) == actions
                    && actions_wf(res.actions_to_apply@),
                Err(e) => r matches Err(err) && err@ == e,
            },
    {
        let facts = Ghost(request_facts(*request));
        let bucket = match self.extract_bucket_from_key(&request.key) {
            Ok(b) => b,
            Err(e) => {
                return Err(e);
            },
        };
        if let Ok(Some(config)) = self.get_lifecycle_configuration(&bucket) {
            let actions = evaluate_rules(&config.rules, request, now);
            proof {
                lemma_rules_actions_same(
                    config.rules@,
                    self.configs()[bucket@].rules@,
                    facts@,
                    now@,
                );
            }
            return Ok(LifecycleEvaluationResult { actions_to_apply: actions });
        }
        let names = match self.lifecycle_repo.list_configured_buckets() {
            Ok(v) => v,
            Err(e) => {
                return Err(e);
            },
        };
        proof {
            self.lifecycle_repo.lemma_configured_names();
        }
        let mut out: Vec<ApplicableAction> = Vec::new();
        let mut i: usize = 0;
        assert(action_models(out@) =~= configured_actions(
            self.configs(),
            bucket_views(names@).take(0),
            facts@,
            now@,
        ));
        while i < names.len()
            invariant
                self.wf(),
                request.wf(),
                now.wf(),
                facts@ == request_facts(*request),
                i <= names@.len(),
                bucket_views(names@) == self.configured_names(),
                forall|b: Seq<char>|
                    #[trigger] self.configured_names().contains(b) ==> self.configs().dom().contains(b),
                action_models(out@) == configured_actions(
                    self.configs(),
                    bucket_views(names@).take(i as int),
                    facts@,
                    now@,
                ),
                actions_wf(out@),
            decreases names@.len() - i,
        {
            let ghost done = bucket_views(names@).take(i as int);
            let ghost next = bucket_views(names@).take(i + 1);
            assert(next.drop_last() =~= done);
            assert(next.last() == names@[i as int]@);
            assert(self.configured_names().contains(names@[i as int]@)) by {
                assert(bucket_views(names@)[i as int] == names@[i as int]@);
            }
            match self.get_lifecycle_configuration(&names[i]) {
                Ok(Some(config)) => {
                    let actions = evaluate_rules(&config.rules, request, now);
                    proof {
                        lemma_rules_actions_same(
                            config.rules@,
                            self.configs()[names@[i as int]@].rules@,
                            facts@,
                            now@,
                        );
                    }
                    let ghost before = out@;
                    let mut more = actions;
                    out.append(&mut more);
                    assert(action_models(out@) =~= action_models(before) + action_models(actions@));
                },
                _ => {
                    assert(false);
                },
            }
            i = i + 1;
        }
        assert(bucket_views(names@).take(names@.len() as int) =~= bucket_views(names@));
        Ok(LifecycleEvaluationResult { actions_to_apply: out })
    }

    /// The actions that the rules call for now, as [`LifecycleServiceImpl::evaluate_object_lifecycle_at`]
    /// finds them at the current time.
    pub fn evaluate_object_lifecycle(&self, request: &EvaluateLifecycleRequest) -> (r: Result<
        LifecycleEvaluationResult,
        LifecycleError,
    >)
        requires
            self.wf(),
            request.wf(),
        ensures
            exists|t: int|
                match #[trigger] evaluation_outcome(self.configs(), self.configured_names(), request_facts(*request), t) {
                    Ok(actions) => r matches Ok(res) && action_models(res.actions_to_apply@) == actions,
                    Err(e) => r matches Err(err) && err@ == e,
                },
    {
        let t = now();
        self.evaluate_object_lifecycle_at(request, &t)
    }
}

/// The entries of the actions that apply: rule id and action type.
pub open spec fn applied_entries(actions: Seq<ApplicableAction>) -> Seq<(Seq<char>, Seq<char>)>
    decreases actions.len(),
{
    if actions.len() == 0 {
        Seq::empty()
    } else {
        let a = actions.last();
        applied_entries(actions.drop_last()) + match application_outcome(action_view(a.action)) {
            Ok(t) => seq![(a.rule_id@, t)],
            Err(_) => Seq::empty(),
        }
    }
}

/// The entries of the actions that fail: rule id, the action's debug form, and the error.
pub open spec fn failed_entries(actions: Seq<ApplicableAction>) -> Seq<
    (Seq<char>, Seq<char>, Seq<char>),
>
    decreases actions.len(),
{
    if actions.len() == 0 {
        Seq::empty()
    } else {
        let a = actions.last();
        failed_entries(actions.drop_last()) + match application_outcome(action_view(a.action)) {
            Err(m) => seq![(a.rule_id@, action_debug_text(a.action), m)],
            Ok(_) => Seq::empty(),
        }
    }
}

/// The models of applied-action entries.
pub open spec fn applied_models(v: Seq<AppliedAction>) -> Seq<(Seq<char>, Seq<char>)> {
    v.map_values(|a: AppliedAction| (a.rule_id@, a.action_type@))
}

/// The models of failed-action entries.
pub open spec fn failed_models(v: Seq<FailedAction>) -> Seq<(Seq<char>, Seq<char>, Seq<char>)> {
    v.map_values(|a: FailedAction| (a.rule_id@, a.action_type@, a.error@))
}

/// Some action is an expiration.
pub open spec fn has_expiration(v: Seq<ApplicableAction>) -> bool {
    exists|i: int| 0 <= i < v.len() && (#[trigger] v[i]).action is Expiration
}

impl LifecycleServiceImpl {
    /// Applies the actions to the object in order, stamped with the current time (see
    /// [`LifecycleServiceImpl::apply_lifecycle_actions_at`]).
    pub fn apply_lifecycle_actions(&mut self, key: &ObjectKey, actions: Vec<ApplicableAction>) -> (r: Result<
        crate::ports::LifecycleActionResults,
        LifecycleError,
    >)
        requires
            old(self).wf(),
            actions_wf(actions@),
        ensures
            final(self).wf(),
            final(self).configs() == old(self).configs(),
            final(self).configured_names() == old(self).configured_names(),
            final(self).statuses() == old(self).statuses(),
            final(self).store_contents() == if has_expiration(actions@) {
                old(self).store_contents().remove(object_path(key@))
            } else {
                old(self).store_contents()
            },
            r matches Ok(res) && res.object_key@ == key@ && applied_models(res.applied_actions@)
                == applied_entries(actions@) && failed_models(res.failed_actions@)
                == failed_entries(actions@),
    {
        let t = now();
        self.apply_lifecycle_actions_at(key, actions, t)
    }

    /// Applies the actions to the object in order: an expiration deletes the object; a
    /// transition fails (not implemented); the other actions are recorded as applied.
    pub fn apply_lifecycle_actions_at(
        &mut self,
        key: &ObjectKey,
        actions: Vec<ApplicableAction>,
        now: UtcTime,
    ) -> (r: Result<crate::ports::LifecycleActionResults, LifecycleError>)
        requires
            old(self).wf(),
            actions_wf(actions@),
        ensures
            final(self).wf(),
            final(self).configs() == old(self).configs(),
            final(self).configured_names() == old(self).configured_names(),
            final(self).statuses() == old(self).statuses(),
            final(self).store_contents() == if has_expiration(actions@) {
                old(self).store_contents().remove(object_path(key@))
            } else {
                old(self).store_contents()
            },
            r matches Ok(res) && res.object_key@ == key@ && applied_models(res.applied_actions@)
                == applied_entries(actions@) && failed_models(res.failed_actions@)
                == failed_entries(actions@),
    {
        let mut applied: Vec<AppliedAction> = Vec::new();
        let mut failed: Vec<FailedAction> = Vec::new();
        let mut i: usize = 0;
        let ghost start = self.object_store.contents();
        assert(actions@.take(0) =~= Seq::<ApplicableAction>::empty());
        assert(applied_models(applied@) =~= Seq::<(Seq<char>, Seq<char>)>::empty());
        assert(failed_models(failed@) =~= Seq::<(Seq<char>, Seq<char>, Seq<char>)>::empty());
        while i < actions.len()
            invariant
                i <= actions@.len(),
                actions_wf(actions@),
                self.wf(),
                self.configs() == old(self).configs(),
                self.configured_names() == old(self).configured_names(),
                self.statuses() == old(self).statuses(),
                start == old(self).store_contents(),
                self.store_contents() == if has_expiration(actions@.take(i as int)) {
                    start.remove(object_path(key@))
                } else {
                    start
                },
                applied_models(applied@) == applied_entries(actions@.take(i as int)),
                failed_models(failed@) == failed_entries(actions@.take(i as int)),
            decreases actions@.len() - i,
        {
            let action = &actions[i];
            let ghost t = actions@.take(i + 1);
            assert(t.drop_last() =~= actions@.take(i as int));
            assert(t.last() == actions@[i as int]);
            let ghost before_a = applied@;
            let ghost before_f = failed@;
            let outcome: Result<String, LifecycleError> = match &action.action {
                LifecycleAction::Expiration { .. } => {
                    let _ = self.object_store.delete_object(key);
                    Ok(String::from_str("expiration"))
                },
                LifecycleAction::Transition { .. } => Err(
                    LifecycleError::ActionExecutionFailed {
                        action: String::from_str("transition"),
                        reason: String::from_str("Storage class transitions not yet implemented"),
                    },
                ),
                LifecycleAction::ExpireDeleteMarker { .. } => Ok(
                    String::from_str("delete_marker_expiration"),
                ),
                LifecycleAction::NonCurrentVersionExpiration { .. } => Ok(
                    String::from_str("noncurrent_version_expiration"),
                ),
                LifecycleAction::NonCurrentVersionTransition { .. } => Ok(
                    String::from_str("noncurrent_version_transition"),
                ),
                LifecycleAction::AbortIncompleteMultipartUpload { .. } => Ok(
                    String::from_str("multipart_cleanup"),
                ),
            };
            proof {
                if outcome is Ok {
                    assert(application_outcome(action_view(action.action)) == Ok::<
                        Seq<char>,
                        Seq<char>,
                    >(outcome->Ok_0@));
                } else {
                    assert(application_outcome(action_view(action.action)) == Err::<
                        Seq<char>,
                        Seq<char>,
                    >(outcome->Err_0@.message()));
                }
            }
            match outcome {
                Ok(action_type) => {
                    applied.push(
                        AppliedAction {
                            rule_id: action.rule_id.clone(),
                            action_type,
                            timestamp: now,
                        },
                    );
                    assert(applied_models(applied@) =~= applied_models(before_a).push(
                        (action.rule_id@, application_outcome(action_view(action.action))->Ok_0),
                    ));
                    assert(failed_models(failed@) =~= failed_models(before_f) + Seq::<
                        (Seq<char>, Seq<char>, Seq<char>),
                    >::empty());
                },
                Err(e) => {
                    assert(action_wf(actions@[i as int].action));
                    let debug = action_debug(&action.action);
                    failed.push(
                        FailedAction {
                            rule_id: action.rule_id.clone(),
                            action_type: debug,
                            error: e.message(),
                        },
                    );
                    assert(failed_models(failed@) =~= failed_models(before_f).push(
                        (
                            action.rule_id@,
                            action_debug_text(action.action),
                            application_outcome(action_view(action.action))->Err_0,
                        ),
                    ));
                    assert(applied_models(applied@) =~= applied_models(before_a) + Seq::<
                        (Seq<char>, Seq<char>),
                    >::empty());
                },
            }
            proof {
                if has_expiration(t) {
                    if !(actions@[i as int].action is Expiration) {
                        let j = choose|j: int| 0 <= j < t.len() && (#[trigger] t[j]).action is Expiration;
                        assert(actions@.take(i as int)[j] == t[j]);
                    }
                }
                if has_expiration(actions@.take(i as int)) {
                    let j = choose|j: int|
                        0 <= j < i && (#[trigger] actions@.take(i as int)[j]).action is Expiration;
                    assert(t[j] == actions@.take(i as int)[j]);
                }
                if actions@[i as int].action is Expiration {
                    assert(t[i as int] == actions@[i as int]);
                }
            }
            i = i + 1;
        }
        assert(actions@.take(actions@.len() as int) =~= actions@);
        Ok(crate::ports::LifecycleActionResults {
            object_key: key.clone(),
            applied_actions: applied,
            failed_actions: failed,
        })
    }
}

/// Applied entries count the actions that apply, and failed entries give the errors that
/// processing records for the object.
proof fn lemma_entries_models(actions: Seq<ApplicableAction>, key: Seq<char>)
    ensures
        applied_entries(actions).len() == applied_count(action_models(actions)),
        failed_entries(actions).map_values(
            |e: (Seq<char>, Seq<char>, Seq<char>)| ErrorModel { key, rule_id: e.0, message: e.2 },
        ) == failure_errors(action_models(actions), key),
        has_expiration(actions) == expires(action_models(actions)),
    decreases actions.len(),
{
    if actions.len() > 0 {
        let t = actions.drop_last();
        lemma_entries_models(t, key);
        assert(action_models(actions).drop_last() =~= action_models(t));
        assert(action_models(actions).last() == action_model(actions.last()));
        let f = |e: (Seq<char>, Seq<char>, Seq<char>)| ErrorModel { key, rule_id: e.0, message: e.2 };
        assert(failed_entries(actions).map_values(f) =~= failed_entries(t).map_values(f) + match application_outcome(
            action_view(actions.last().action),
        ) {
            Err(m) => seq![ErrorModel { key, rule_id: actions.last().rule_id@, message: m }],
            Ok(_) => Seq::<ErrorModel>::empty(),
        });
        let m = action_models(actions);
        if has_expiration(actions) {
            let i = choose|i: int| 0 <= i < actions.len() && (#[trigger] actions[i]).action is Expiration;
            assert(m[i].action is Expiration);
        }
        if expires(m) {
            let i = choose|i: int| 0 <= i < m.len() && (#[trigger] m[i]).action is Expiration;
            assert(actions[i].action is Expiration);
        }
    } else {
        assert(action_models(actions) =~= Seq::<ActionModel>::empty());
    }
}

/// Saturating addition of a count.
fn add_count(a: usize, b: usize) -> (r: usize)
    ensures
        r == if a + b <= usize::MAX {
            (a + b) as usize
        } else {
            usize::MAX
        },
{
    if a <= usize::MAX - b {
        a + b
    } else {
        usize::MAX
    }
}

/// The listed objects' modification times lie in range.
pub open spec fn infos_wf(v: Seq<ObjectInfo>) -> bool {
    forall|i: int| 0 <= i < v.len() ==> (#[trigger] v[i]).last_modified.wf()
}

/// A count capped at the largest `usize`.
pub open spec fn capped(n: nat) -> usize {
    if n <= usize::MAX {
        n as usize
    } else {
        usize::MAX
    }
}

impl LifecycleServiceImpl {
    /// Processes the listed objects at time `now`: each is evaluated (with no tags, as the
    /// current version and no delete marker) and the actions called for are applied.
    /// Returns the number of objects processed, the number affected, the number of actions
    /// applied (capped at the largest `usize`) and the errors met.
    pub fn process_listing(&mut self, infos: &Vec<ObjectInfo>, now: &UtcTime) -> (r: (
        usize,
        usize,
        usize,
        Vec<ProcessingError>,
    ))
        requires
            old(self).wf(),
            infos_wf(infos@),
            now.wf(),
        ensures
            final(self).wf(),
            final(self).configs() == old(self).configs(),
            final(self).configured_names() == old(self).configured_names(),
            final(self).statuses() == old(self).statuses(),
            final(self).store_contents() == processed_contents(
                old(self).configs(),
                old(self).configured_names(),
                infos@,
                now@,
                old(self).store_contents(),
            ),
            r.0 == infos@.len(),
            r.1 <= r.0,
            r.1 == processing_summary(old(self).configs(), old(self).configured_names(), infos@, now@).0,
            r.2 == capped(processing_summary(old(self).configs(), old(self).configured_names(), infos@, now@).1),
            error_models(r.3@) == processing_summary(old(self).configs(), old(self).configured_names(), infos@, now@).2,
    {
        let ghost configs = self.configs();
        let ghost names = self.configured_names();
        let ghost start = self.store_contents();
        let mut processed: usize = 0;
        let mut affected: usize = 0;
        let mut applied: usize = 0;
        let mut errors: Vec<ProcessingError> = Vec::new();
        let mut i: usize = 0;
        assert(infos@.take(0) =~= Seq::<ObjectInfo>::empty());
        assert(error_models(errors@) =~= Seq::<ErrorModel>::empty());
        while i < infos.len()
            invariant
                self.wf(),
                infos_wf(infos@),
                now.wf(),
                i <= infos@.len(),
                self.configs() == configs,
                self.configured_names() == names,
                self.statuses() == old(self).statuses(),
                configs == old(self).configs(),
                names == old(self).configured_names(),
                start == old(self).store_contents(),
                self.store_contents() == processed_contents(
                    configs,
                    names,
                    infos@.take(i as int),
                    now@,
                    start,
                ),
                processed == i,
                affected == processing_summary(configs, names, infos@.take(i as int), now@).0,
                affected <= i,
                applied == capped(processing_summary(configs, names, infos@.take(i as int), now@).1),
                error_models(errors@) == processing_summary(configs, names, infos@.take(i as int), now@).2,
            decreases infos@.len() - i,
        {
            let info = &infos[i];
            let ghost t = infos@.take(i + 1);
            assert(t.drop_last() =~= infos@.take(i as int));
            assert(t.last() == infos@[i as int]);
            processed = processed + 1;
            let request = EvaluateLifecycleRequest {
                key: info.key.clone(),
                object_created_at: info.last_modified,
                object_tags: TagMap::new(),
                is_delete_marker: false,
                is_current_version: true,
            };
            assert(info.last_modified.wf());
            assert(request_facts(request) == listed_facts(*info)) by {
                assert(request.object_tags@ =~= Map::<Seq<char>, Seq<char>>::empty());
            }
            let ghost before_errors = errors@;
            match self.evaluate_object_lifecycle_at(&request, now) {
                Ok(evaluation) => {
                    let ghost acts = evaluation.actions_to_apply@;
                    if evaluation.actions_to_apply.len() != 0 {
                        affected = affected + 1;
                        proof {
                            lemma_entries_models(acts, info.key@);
                        }
                        match self.apply_lifecycle_actions_at(
                            &info.key,
                            evaluation.actions_to_apply,
                            *now,
                        ) {
                            Ok(results) => {
                                applied = add_count(applied, results.applied_actions.len());
                                let ghost fe = failed_entries(acts);
                                let mut j: usize = 0;
                                while j < results.failed_actions.len()
                                    invariant
                                        j <= results.failed_actions@.len(),
                                        failed_models(results.failed_actions@) == fe,
                                        errors@.len() == before_errors.len() + j,
                                        forall|k: int|
                                            0 <= k < before_errors.len() ==> #[trigger] errors@[k]
                                                == before_errors[k],
                                        forall|k: int|
                                            0 <= k < j ==> error_model(
                                                #[trigger] errors@[before_errors.len() + k],
                                            ) == (ErrorModel {
                                                key: info.key@,
                                                rule_id: fe[k].0,
                                                message: fe[k].2,
                                            }),
                                    decreases results.failed_actions@.len() - j,
                                {
                                    let failed = &results.failed_actions[j];
                                    assert(failed_models(results.failed_actions@)[j as int] == (
                                        failed.rule_id@,
                                        failed.action_type@,
                                        failed.error@,
                                    ));
                                    errors.push(
                                        ProcessingError {
                                            object_key: info.key.clone(),
                                            rule_id: failed.rule_id.clone(),
                                            error: failed.error.clone(),
                                        },
                                    );
                                    j = j + 1;
                                }
                                proof {
                                    let f = |e: (Seq<char>, Seq<char>, Seq<char>)|
                                        ErrorModel { key: info.key@, rule_id: e.0, message: e.2 };
                                    assert(fe.len() == results.failed_actions@.len());
                                    let lhs = error_models(errors@);
                                    let rhs = error_models(before_errors) + fe.map_values(f);
                                    assert(lhs.len() == rhs.len());
                                    assert forall|k: int| 0 <= k < lhs.len() implies lhs[k]
                                        == rhs[k] by {
                                        if k < before_errors.len() {
                                            assert(errors@[k] == before_errors[k]);
                                        } else {
                                            let k2 = k - before_errors.len();
                                            assert(error_model(errors@[before_errors.len() + k2])
                                                == f(fe[k2]));
                                        }
                                    }
                                    assert(lhs =~= rhs);
                                }
                            },
                            Err(e) => {
                                errors.push(
                                    ProcessingError {
                                        object_key: info.key.clone(),
                                        rule_id: String::from_str("apply_actions"),
                                        error: e.message(),
                                    },
                                );
                            },
                        }
                    } else {
                        assert(acts.len() == 0);
                        assert(action_models(acts).len() == 0);
                    }
                },
                Err(e) => {
                    errors.push(
                        ProcessingError {
                            object_key: info.key.clone(),
                            rule_id: String::from_str("evaluation"),
                            error: e.message(),
                        },
                    );
                    assert(error_models(errors@) =~= error_models(before_errors).push(
                        ErrorModel { key: info.key@, rule_id: "evaluation"@, message: e@.message() },
                    ));
                },
            }
            i = i + 1;
        }
        assert(infos@.take(infos@.len() as int) =~= infos@);
        (processed, affected, applied, errors)
    }
}

/// The listing that the store gives for the bucket's objects succeeded with `v`.
pub open spec fn listed(v: Vec<ObjectInfo>, contents: Map<Seq<char>, Seq<u8>>, bucket: Seq<char>) -> bool {
    exists|listing: Seq<ListedObject>|
        is_listing_of(listing, contents, object_path(bucket)) && listing_outcome(
            listing,
            None,
            Ok::<Vec<ObjectInfo>, StorageError>(v),
        )
}

/// The listing that the store gives for the bucket's objects failed with `e`.
pub open spec fn listing_failed(e: StorageError, contents: Map<Seq<char>, Seq<u8>>, bucket: Seq<char>) -> bool {
    exists|listing: Seq<ListedObject>|
        is_listing_of(listing, contents, object_path(bucket)) && listing_outcome(
            listing,
            None,
            Err::<Vec<ObjectInfo>, StorageError>(e),
        )
}

impl LifecycleServiceImpl {
    /// Records the status of the bucket.
    fn set_status(&mut self, bucket: &BucketName, status: ProcessingStatus)
        requires
            old(self).wf(),
        ensures
            final(self).wf(),
            final(self).configs() == old(self).configs(),
            final(self).configured_names() == old(self).configured_names(),
            final(self).store_contents() == old(self).store_contents(),
            final(self).statuses() == old(self).statuses().insert(bucket@, status),
    {
        keyed_set(&mut self.processing_status, String::from_str(bucket.as_str()), status);
    }

    /// Processes the lifecycle of the bucket: lists its objects (those under the bucket's
    /// name), evaluates and applies the rules to each, and records the processing status.
    /// When the listing fails, the result holds that single error and the status stays
    /// marked as running.
    pub fn process_bucket_lifecycle(&mut self, bucket: &BucketName) -> (r: Result<
        BucketLifecycleResults,
        LifecycleError,
    >)
        requires
            old(self).wf(),
        ensures
            final(self).wf(),
            final(self).configs() == old(self).configs(),
            final(self).configured_names() == old(self).configured_names(),
            final(self).statuses().dom().contains(bucket@),
            r matches Ok(res) && bucket_processed(*old(self), *final(self), bucket@, res),
    {
        let start = now();
        let next = start.plus_secs(SECS_PER_DAY);
        self.set_status(
            bucket,
            ProcessingStatus {
                is_running: true,
                last_run: Some(start),
                next_scheduled_run: next,
                last_run_results: None,
            },
        );
        let ghost contents = self.store_contents();
        let listing = self.object_store.list_objects(Some(bucket.as_str()), None);
        let infos = match listing {
            Ok(v) => v,
            Err(e) => {
                let unknown = "unknown";
                proof {
                    reveal_strlit("unknown");
                    crate::value_objects::lemma_lowercase_object_key_valid(unknown@);
                }
                let key = match ObjectKey::new(String::from_str(unknown)) {
                    Ok(k) => k,
                    Err(_) => {
                        return Err(
                            LifecycleError::ProcessingError {
                                message: String::from_str("unreachable"),
                            },
                        );
                    },
                };
                let m = e.message();
                let mut errors: Vec<ProcessingError> = Vec::new();
                errors.push(
                    ProcessingError {
                        object_key: key,
                        rule_id: String::from_str("system"),
                        error: concat_str("Failed to list bucket objects: ", m.as_str()),
                    },
                );
                let end = now();
                let duration = elapsed_whole_secs(&start, &end);
                let res = BucketLifecycleResults {
                    bucket: bucket.clone(),
                    objects_processed: 0,
                    objects_affected: 0,
                    actions_applied: 0,
                    errors,
                    duration_secs: duration,
                };
                assert(error_models(res.errors@) =~= seq![
                    ErrorModel {
                        key: "unknown"@,
                        rule_id: "system"@,
                        message: "Failed to list bucket objects: "@ + e@.message(),
                    },
                ]);
                assert(listing_failed(e, contents, bucket@));
                return Ok(res);
            },
        };
        assert(listed(infos, contents, bucket@));
        assert(infos_wf(infos@)) by {
            let listing = choose|listing: Seq<ListedObject>|
                is_listing_of(listing, contents, object_path(bucket@)) && listing_outcome(
                    listing,
                    None,
                    Ok::<Vec<ObjectInfo>, StorageError>(infos),
                );
            assert forall|i: int| 0 <= i < infos@.len() implies (
            #[trigger] infos@[i]).last_modified.wf() by {
                assert(crate::store::info_from(infos@[i], listing[i]));
            }
        }
        let evaluation_time = now();
        let (processed, affected, applied, errors) = self.process_listing(&infos, &evaluation_time);
        let end = now();
        let duration = elapsed_whole_secs(&start, &end);
        let results = BucketLifecycleResults {
            bucket: bucket.clone(),
            objects_processed: processed,
            objects_affected: affected,
            actions_applied: applied,
            errors,
            duration_secs: duration,
        };
        let next_run = end.plus_secs(SECS_PER_DAY);
        let ghost after_processing = self.store_contents();
        self.set_status(
            bucket,
            ProcessingStatus {
                is_running: false,
                last_run: Some(start),
                next_scheduled_run: next_run,
                last_run_results: Some(results.clone()),
            },
        );
        Ok(results)
    }

    /// The processing status recorded for the bucket, or an idle status with nothing recorded.
    pub fn get_processing_status(&self, bucket: &BucketName) -> (r: Result<
        ProcessingStatus,
        LifecycleError,
    >)
        requires
            self.wf(),
        ensures
            match r {
                Ok(st) => if self.statuses().dom().contains(bucket@) {
                    st.is_running == self.statuses()[bucket@].is_running && st.last_run
                        == self.statuses()[bucket@].last_run && st.next_scheduled_run
                        == self.statuses()[bucket@].next_scheduled_run && same_results(
                        st.last_run_results,
                        self.statuses()[bucket@].last_run_results,
                    )
                } else {
                    !st.is_running && st.last_run is None && st.next_scheduled_run is None
                        && st.last_run_results is None
                },
                Err(_) => false,
            },
    {
        match keyed_find(&self.processing_status, bucket.as_str()) {
            Some(i) => Ok(self.processing_status[i].1.clone()),
            None => Ok(
                ProcessingStatus {
                    is_running: false,
                    last_run: None,
                    next_scheduled_run: None,
                    last_run_results: None,
                },
            ),
        }
    }
}

/// The errors that validating a configuration with these rules finds.
pub open spec fn findings_of_rules(rules: Seq<LifecycleRule>) -> Seq<FindingModel> {
    (match crate::lifecycle::rules_validation_error(rules) {
        Some(e) => seq![FindingModel { rule_id: None, field: "configuration"@, message: e.message() }],
        None => Seq::empty(),
    }) + rule_findings(rules)
}

/// Rules with the same settings validate alike.
pub proof fn lemma_findings_same(a: Seq<LifecycleRule>, b: Seq<LifecycleRule>)
    requires
        same_rules(a, b),
    ensures
        crate::lifecycle::rules_validation_error(a) == crate::lifecycle::rules_validation_error(b),
        rule_findings(a) == rule_findings(b),
        findings_of_rules(a) == findings_of_rules(b),
    decreases a.len(),
{
    if a.len() > 0 {
        let ta = a.drop_last();
        let tb = b.drop_last();
        assert(same_rules(ta, tb)) by {
            assert forall|i: int| 0 <= i < ta.len() implies (#[trigger] ta[i]).same_as(tb[i]) by {
                assert(a[i].same_as(b[i]));
            }
        }
        lemma_findings_same(ta, tb);
        assert(a.last().same_as(b.last()));
        assert(crate::lifecycle::id_seen_before(a, a.len() - 1)
            == crate::lifecycle::id_seen_before(b, b.len() - 1)) by {
            if crate::lifecycle::id_seen_before(a, a.len() - 1) {
                let j = choose|j: int| 0 <= j < a.len() - 1 && (#[trigger] a[j]).id@ == a[a.len() - 1].id@;
                assert(a[j].same_as(b[j]));
                assert(b[j].id@ == b[b.len() - 1].id@);
            }
            if crate::lifecycle::id_seen_before(b, b.len() - 1) {
                let j = choose|j: int| 0 <= j < b.len() - 1 && (#[trigger] b[j]).id@ == b[b.len() - 1].id@;
                assert(a[j].same_as(b[j]));
                assert(a[j].id@ == a[a.len() - 1].id@);
            }
        }
    }
}

/// Some rule has this id.
pub open spec fn has_rule_id(rules: Seq<LifecycleRule>, id: Seq<char>) -> bool {
    exists|i: int| 0 <= i < rules.len() && (#[trigger] rules[i]).id@ == id
}

/// The rules of the bucket's configuration, none when it has none.
pub open spec fn bucket_rules(configs: Map<Seq<char>, LifecycleConfiguration>, bucket: Seq<char>) -> Seq<
    LifecycleRule,
> {
    if configs.dom().contains(bucket) {
        configs[bucket].rules@
    } else {
        Seq::empty()
    }
}

/// The configurations after storing rules for a bucket: it holds rules with the same settings
/// as `rules`, and other buckets are untouched.
pub open spec fn stored_rules(
    before: Map<Seq<char>, LifecycleConfiguration>,
    after: Map<Seq<char>, LifecycleConfiguration>,
    bucket: Seq<char>,
    rules: Seq<LifecycleRule>,
) -> bool {
    &&& after.dom() == before.dom().insert(bucket)
    &&& after[bucket].bucket@ == bucket
    &&& same_rules(after[bucket].rules@, rules)
    &&& forall|b: Seq<char>|
        b != bucket ==> #[trigger] after.dom().contains(b) ==> after[b] == before[b]
}

impl LifecycleServiceImpl {
    /// Stores the rules as the bucket's configuration, through validation.
    fn store_rules(&mut self, bucket: &BucketName, rules: Vec<LifecycleRule>) -> (r: Result<
        (),
        LifecycleError,
    >)
        requires
            old(self).wf(),
            rules_wf(rules@),
        ensures
            final(self).wf(),
            final(self).store_contents() == old(self).store_contents(),
            final(self).statuses() == old(self).statuses(),
            findings_of_rules(rules@).len() > 0 ==> (r matches Err(e) && e@
                == (LifecycleErrorView::ValidationFailed {
                errors: finding_messages(findings_of_rules(rules@)),
            }) && final(self).configs() == old(self).configs()),
            findings_of_rules(rules@).len() == 0 ==> (r is Ok && stored_rules(
                old(self).configs(),
                final(self).configs(),
                bucket@,
                rules@,
            )),
    {
        let ghost rs = rules@;
        let config = LifecycleConfiguration { bucket: bucket.clone(), rules };
        assert(config_findings(config) == findings_of_rules(rs));
        let r = self.set_lifecycle_configuration(bucket, config);
        proof {
            if findings_of_rules(rs).len() == 0 {
                assert forall|i: int| 0 <= i < rs.len() implies (
                #[trigger] self.configs()[bucket@].rules@[i]).same_as(rs[i]) by {
                    assert(self.configs()[bucket@].rules@[i].same_as(config.rules@[i]));
                }
            }
        }
        r
    }

    /// Sets the status of the first rule with this id in the bucket's configuration, then
    /// stores the configuration through validation.
    fn update_rule_status(&mut self, bucket: &BucketName, rule_id: &str, status: RuleStatus) -> (r:
        Result<(), LifecycleError>)
        requires
            old(self).wf(),
        ensures
            final(self).wf(),
            final(self).store_contents() == old(self).store_contents(),
            final(self).statuses() == old(self).statuses(),
            rule_status_set(old(self).configs(), final(self).configs(), bucket@, rule_id@, status, r),
    {
        let config = match self.get_lifecycle_configuration(bucket) {
            Ok(Some(c)) => c,
            Ok(None) => {
                return Err(LifecycleError::ConfigurationNotFound { bucket: bucket.clone() });
            },
            Err(e) => {
                return Err(e);
            },
        };
        let pos = match find_rule(&config.rules, rule_id) {
            Some(p) => p,
            None => {
                proof {
                    lemma_findings_same(config.rules@, self.configs()[bucket@].rules@);
                    if let Some(k) = first_rule_with_id(self.configs()[bucket@].rules@, rule_id@) {
                        crate::lifecycle_repository::lemma_first_rule_with_id_bounds(
                            self.configs()[bucket@].rules@,
                            rule_id@,
                        );
                        lemma_first_rule_same(config.rules@, self.configs()[bucket@].rules@, rule_id@);
                    }
                }
                return Err(LifecycleError::RuleNotFound { rule_id: String::from_str(rule_id) });
            },
        };
        proof {
            lemma_first_rule_same(config.rules@, self.configs()[bucket@].rules@, rule_id@);
        }
        let mut rules = config.rules;
        let mut updated = rules[pos].clone();
        updated.status = status;
        let ghost before_rules = rules@;
        rules.set(pos, updated);
        proof {
            let b = self.configs()[bucket@].rules@;
            assert(rules_wf(rules@)) by {
                assert forall|j: int| 0 <= j < rules@.len() implies (#[trigger] rules@[j]).wf() by {
                    assert(before_rules[j].wf());
                }
            }
            assert(same_rules(rules@, b.update(pos as int, rules@[pos as int]))) by {
                assert forall|j: int| 0 <= j < rules@.len() implies (#[trigger] rules@[j]).same_as(
                    b.update(pos as int, rules@[pos as int])[j],
                ) by {
                    if j != pos {
                        assert(before_rules[j].same_as(b[j]));
                    }
                }
            }
            lemma_findings_same(rules@, b.update(pos as int, rules@[pos as int]));
            lemma_status_findings(b, pos as int, rules@[pos as int]);
        }
        let r = self.store_rules(bucket, rules);
        r
    }

    /// Enables the first rule with this id.
    pub fn enable_rule(&mut self, bucket: &BucketName, rule_id: &str) -> (r: Result<
        (),
        LifecycleError,
    >)
        requires
            old(self).wf(),
        ensures
            final(self).wf(),
            final(self).store_contents() == old(self).store_contents(),
            final(self).statuses() == old(self).statuses(),
            rule_status_set(
                old(self).configs(),
                final(self).configs(),
                bucket@,
                rule_id@,
                RuleStatus::Enabled,
                r,
            ),
    {
        self.update_rule_status(bucket, rule_id, RuleStatus::Enabled)
    }

    /// Disables the first rule with this id.
    pub fn disable_rule(&mut self, bucket: &BucketName, rule_id: &str) -> (r: Result<
        (),
        LifecycleError,
    >)
        requires
            old(self).wf(),
        ensures
            final(self).wf(),
            final(self).store_contents() == old(self).store_contents(),
            final(self).statuses() == old(self).statuses(),
            rule_status_set(
                old(self).configs(),
                final(self).configs(),
                bucket@,
                rule_id@,
                RuleStatus::Disabled,
                r,
            ),
    {
        self.update_rule_status(bucket, rule_id, RuleStatus::Disabled)
    }
}

/// The outcome of setting a bucket's configuration: `ValidationFailed` with the messages
/// of what validation finds, nothing changing then; otherwise the bucket holds the
/// configuration and the other buckets keep theirs.
pub open spec fn configuration_set(
    before: Map<Seq<char>, LifecycleConfiguration>,
    after: Map<Seq<char>, LifecycleConfiguration>,
    bucket: Seq<char>,
    config: LifecycleConfiguration,
    r: Result<(), LifecycleError>,
) -> bool {
    if config_findings(config).len() > 0 {
        r matches Err(e) && e@ == (LifecycleErrorView::ValidationFailed {
            errors: finding_messages(config_findings(config)),
        }) && after == before
    } else {
        &&& r is Ok
        &&& after.dom() =~= before.dom().insert(bucket)
        &&& same_config(after[bucket], config)
        &&& forall|b: Seq<char>|
            b != bucket ==> #[trigger] after.dom().contains(b) ==> after[b] == before[b]
    }
}

/// The outcome of setting the status of the first rule with this id in the bucket's
/// configuration: `ConfigurationNotFound` or `RuleNotFound` when there is no such rule,
/// `ValidationFailed` when the configuration's rules do not validate (nothing changes then),
/// or else that rule alone takes the status.
pub open spec fn rule_status_set(
    before: Map<Seq<char>, LifecycleConfiguration>,
    after: Map<Seq<char>, LifecycleConfiguration>,
    bucket: Seq<char>,
    rule_id: Seq<char>,
    status: RuleStatus,
    r: Result<(), LifecycleError>,
) -> bool {
    if !before.dom().contains(bucket) {
        r matches Err(e) && e@ == (LifecycleErrorView::ConfigurationNotFound { bucket }) && after == before
    } else {
        match first_rule_with_id(before[bucket].rules@, rule_id) {
            None => r matches Err(e) && e@ == (LifecycleErrorView::RuleNotFound { rule_id })
                && after == before,
            Some(i) => {
                let rules = before[bucket].rules@;
                &&& findings_of_rules(rules).len() > 0 ==> (r matches Err(e) && e@
                    == (LifecycleErrorView::ValidationFailed {
                    errors: finding_messages(findings_of_rules(rules)),
                }) && after == before)
                &&& findings_of_rules(rules).len() == 0 ==> (r is Ok && after.dom() =~= before.dom()
                    && after[bucket].rules@.len() == rules.len() && after[bucket].rules@[i].status
                    == status && after[bucket].rules@[i].id@ == rules[i].id@ && (forall|j: int|
                    0 <= j < rules.len() && j != i ==> (#[trigger] after[bucket].rules@[j]).same_as(
                        rules[j],
                    )) && forall|b: Seq<char>|
                    b != bucket ==> #[trigger] after.dom().contains(b) ==> after[b] == before[b])
            },
        }
    }
}

/// The outcome of adding a rule to the bucket's configuration: refused when a rule has
/// its id, when it is invalid or when the rules with it do not validate (nothing changes
/// then); otherwise the bucket's rules are the former ones followed by it.
pub open spec fn rule_added(
    before: Map<Seq<char>, LifecycleConfiguration>,
    after: Map<Seq<char>, LifecycleConfiguration>,
    bucket: Seq<char>,
    rule: LifecycleRule,
    r: Result<(), LifecycleError>,
) -> bool {
    let existing = bucket_rules(before, bucket);
    let added = existing.push(rule);
    if has_rule_id(existing, rule.id@) {
        r matches Err(e) && e@ == (LifecycleErrorView::ValidationFailed {
            errors: seq!["Rule with ID '"@ + rule.id@ + "' already exists"@],
        }) && after == before
    } else if rule.validation_error() is Some {
        r matches Err(e) && e@ == (LifecycleErrorView::ValidationFailed {
            errors: seq![rule.validation_error()->0.message()],
        }) && after == before
    } else if findings_of_rules(added).len() > 0 {
        r matches Err(e) && e@ == (LifecycleErrorView::ValidationFailed {
            errors: finding_messages(findings_of_rules(added)),
        }) && after == before
    } else {
        r is Ok && stored_rules(before, after, bucket, added)
    }
}

/// The outcome of removing the rules with this id from the bucket's configuration: nothing
/// happens without a configuration, `RuleNotFound` when no rule has the id, the
/// configuration goes when no rule is left, and otherwise the rules left are stored when
/// they validate.
pub open spec fn rule_removed(
    before: Map<Seq<char>, LifecycleConfiguration>,
    after: Map<Seq<char>, LifecycleConfiguration>,
    bucket: Seq<char>,
    rule_id: Seq<char>,
    r: Result<(), LifecycleError>,
) -> bool {
    let existing = bucket_rules(before, bucket);
    let kept = without_id(existing, rule_id);
    if !before.dom().contains(bucket) {
        r is Ok && after == before
    } else if !has_rule_id(existing, rule_id) {
        r matches Err(e) && e@ == (LifecycleErrorView::RuleNotFound { rule_id })
            && after == before
    } else if kept.len() == 0 {
        r is Ok && after =~= before.remove(bucket)
    } else if findings_of_rules(kept).len() > 0 {
        r matches Err(e) && e@ == (LifecycleErrorView::ValidationFailed {
            errors: finding_messages(findings_of_rules(kept)),
        }) && after == before
    } else {
        r is Ok && stored_rules(before, after, bucket, kept)
    }
}

/// Same-settings rules find the same first rule with an id.
proof fn lemma_first_rule_same(a: Seq<LifecycleRule>, b: Seq<LifecycleRule>, id: Seq<char>)
    requires
        same_rules(a, b),
    ensures
        first_rule_with_id(a, id) == first_rule_with_id(b, id),
    decreases a.len(),
{
    if a.len() > 0 {
        let ta = a.drop_last();
        let tb = b.drop_last();
        assert(same_rules(ta, tb)) by {
            assert forall|i: int| 0 <= i < ta.len() implies (#[trigger] ta[i]).same_as(tb[i]) by {
                assert(a[i].same_as(b[i]));
            }
        }
        lemma_first_rule_same(ta, tb, id);
        assert(a.last().same_as(b.last()));
    }
}

/// Changing only a rule's status changes neither validation nor its outcome.
proof fn lemma_status_findings(b: Seq<LifecycleRule>, i: int, r: LifecycleRule)
    requires
        0 <= i < b.len(),
        r.id@ == b[i].id@,
        r.filter.same_as(b[i].filter),
        r.expiration_days == b[i].expiration_days,
        r.expiration_date == b[i].expiration_date,
        r.expiration_expired_object_delete_marker == b[i].expiration_expired_object_delete_marker,
        r.expiration_expired_object_all_versions == b[i].expiration_expired_object_all_versions,
        r.del_marker_expiration_days == b[i].del_marker_expiration_days,
        r.all_versions_expiration_days == b[i].all_versions_expiration_days,
        r.transition_days == b[i].transition_days,
        r.transition_date == b[i].transition_date,
        r.noncurrent_version_expiration_noncurrent_days
            == b[i].noncurrent_version_expiration_noncurrent_days,
        r.noncurrent_version_transition_noncurrent_days
            == b[i].noncurrent_version_transition_noncurrent_days,
        r.abort_incomplete_multipart_upload_days_after_initiation
            == b[i].abort_incomplete_multipart_upload_days_after_initiation,
    ensures
        findings_of_rules(b.update(i, r)) == findings_of_rules(b),
    decreases b.len(),
{
    let u = b.update(i, r);
    assert(r.validation_error() == b[i].validation_error());
    assert(crate::lifecycle::rules_validation_error(u) == crate::lifecycle::rules_validation_error(b))
        by {
        lemma_validation_status_independent(b, i, r);
    }
    assert(rule_findings(u) == rule_findings(b)) by {
        lemma_rule_findings_status_independent(b, i, r);
    }
}

proof fn lemma_validation_status_independent(b: Seq<LifecycleRule>, i: int, r: LifecycleRule)
    requires
        0 <= i < b.len(),
        r.id@ == b[i].id@,
        r.spec_has_any_action() == b[i].spec_has_any_action(),
    ensures
        crate::lifecycle::rules_validation_error(b.update(i, r))
            == crate::lifecycle::rules_validation_error(b),
    decreases b.len(),
{
    let u = b.update(i, r);
    if i < b.len() - 1 {
        assert(u.drop_last() =~= b.drop_last().update(i, r));
        lemma_validation_status_independent(b.drop_last(), i, r);
        assert(crate::lifecycle::id_seen_before(u, u.len() - 1)
            == crate::lifecycle::id_seen_before(b, b.len() - 1)) by {
            if crate::lifecycle::id_seen_before(u, u.len() - 1) {
                let j = choose|j: int| 0 <= j < u.len() - 1 && (#[trigger] u[j]).id@ == u[u.len() - 1].id@;
                assert(b[j].id@ == u[j].id@);
            }
            if crate::lifecycle::id_seen_before(b, b.len() - 1) {
                let j = choose|j: int| 0 <= j < b.len() - 1 && (#[trigger] b[j]).id@ == b[b.len() - 1].id@;
                assert(b[j].id@ == u[j].id@);
            }
        }
    } else {
        assert(u.drop_last() =~= b.drop_last());
        assert(crate::lifecycle::id_seen_before(u, u.len() - 1)
            == crate::lifecycle::id_seen_before(b, b.len() - 1)) by {
            if crate::lifecycle::id_seen_before(u, u.len() - 1) {
                let j = choose|j: int| 0 <= j < u.len() - 1 && (#[trigger] u[j]).id@ == u[u.len() - 1].id@;
                assert(b[j] == u[j]);
            }
            if crate::lifecycle::id_seen_before(b, b.len() - 1) {
                let j = choose|j: int| 0 <= j < b.len() - 1 && (#[trigger] b[j]).id@ == b[b.len() - 1].id@;
                assert(b[j] == u[j]);
            }
        }
    }
}

proof fn lemma_rule_findings_status_independent(b: Seq<LifecycleRule>, i: int, r: LifecycleRule)
    requires
        0 <= i < b.len(),
        r.validation_error() == b[i].validation_error(),
        r.id@ == b[i].id@,
    ensures
        rule_findings(b.update(i, r)) == rule_findings(b),
    decreases b.len(),
{
    let u = b.update(i, r);
    if i < b.len() - 1 {
        assert(u.drop_last() =~= b.drop_last().update(i, r));
        lemma_rule_findings_status_independent(b.drop_last(), i, r);
    } else {
        assert(u.drop_last() =~= b.drop_last());
    }
}

/// The rules without those with this id, in order.
pub open spec fn without_id(rules: Seq<LifecycleRule>, id: Seq<char>) -> Seq<LifecycleRule>
    decreases rules.len(),
{
    if rules.len() == 0 {
        Seq::empty()
    } else if rules.last().id@ == id {
        without_id(rules.drop_last(), id)
    } else {
        without_id(rules.drop_last(), id).push(rules.last())
    }
}

proof fn lemma_without_id_same(a: Seq<LifecycleRule>, b: Seq<LifecycleRule>, id: Seq<char>)
    requires
        same_rules(a, b),
    ensures
        same_rules(without_id(a, id), without_id(b, id)),
    decreases a.len(),
{
    if a.len() > 0 {
        let ta = a.drop_last();
        let tb = b.drop_last();
        assert(same_rules(ta, tb)) by {
            assert forall|i: int| 0 <= i < ta.len() implies (#[trigger] ta[i]).same_as(tb[i]) by {
                assert(a[i].same_as(b[i]));
            }
        }
        lemma_without_id_same(ta, tb, id);
        assert(a.last().same_as(b.last()));
    }
}

proof fn lemma_without_id_len(rules: Seq<LifecycleRule>, id: Seq<char>)
    ensures
        without_id(rules, id).len() <= rules.len(),
        without_id(rules, id).len() == rules.len() <==> !has_rule_id(rules, id),
        rules_wf(rules) ==> rules_wf(without_id(rules, id)),
    decreases rules.len(),
{
    if rules.len() > 0 {
        let t = rules.drop_last();
        lemma_without_id_len(t, id);
        if has_rule_id(t, id) {
            let i = choose|i: int| 0 <= i < t.len() && (#[trigger] t[i]).id@ == id;
            assert(rules[i] == t[i]);
        }
        if has_rule_id(rules, id) && rules.last().id@ != id {
            let i = choose|i: int| 0 <= i < rules.len() && (#[trigger] rules[i]).id@ == id;
            assert(rules[i] == t[i]);
        }
        if rules.last().id@ == id {
            assert(rules[rules.len() - 1].id@ == id);
        }
        if rules_wf(rules) {
            assert(rules_wf(t)) by {
                assert forall|i: int| 0 <= i < t.len() implies (#[trigger] t[i]).wf() by {
                    assert(rules[i].wf());
                }
            }
            assert(rules[rules.len() - 1].wf());
        }
    }
}

impl LifecycleServiceImpl {
    /// Adds a rule to the bucket's configuration (creating one when there is none). Refused
    /// with `ValidationFailed` when a rule with the same id exists, when the rule is invalid,
    /// or when the resulting configuration is invalid.
    pub fn add_rule(&mut self, bucket: &BucketName, rule: LifecycleRule) -> (r: Result<
        (),
        LifecycleError,
    >)
        requires
            old(self).wf(),
            rule.wf(),
        ensures
            final(self).wf(),
            final(self).store_contents() == old(self).store_contents(),
            final(self).statuses() == old(self).statuses(),
            rule_added(old(self).configs(), final(self).configs(), bucket@, rule, r),
    {
        let ghost existing = bucket_rules(self.configs(), bucket@);
        let mut rules = match self.get_lifecycle_configuration(bucket) {
            Ok(Some(c)) => c.rules,
            Ok(None) => Vec::new(),
            Err(e) => {
                return Err(e);
            },
        };
        assert(same_rules(rules@, existing));
        let mut i: usize = 0;
        while i < rules.len()
            invariant
                i <= rules@.len(),
                same_rules(rules@, existing),
                self.wf(),
                self.configs() == old(self).configs(),
                self.store_contents() == old(self).store_contents(),
                self.statuses() == old(self).statuses(),
                existing == bucket_rules(old(self).configs(), bucket@),
                forall|j: int| 0 <= j < i ==> (#[trigger] rules@[j]).id@ != rule.id@,
            decreases rules@.len() - i,
        {
            if rules[i].id == rule.id {
                proof {
                    assert(rules@[i as int].same_as(existing[i as int]));
                    assert(existing[i as int].id@ == rule.id@);
                }
                let mut errors: Vec<String> = Vec::new();
                let mut m = concat_str("Rule with ID '", rule.id.as_str());
                crate::text::push_str(&mut m, "' already exists");
                errors.push(m);
                assert(crate::text::string_views(errors@) =~= seq![
                    "Rule with ID '"@ + rule.id@ + "' already exists"@,
                ]);
                return Err(LifecycleError::ValidationFailed { errors });
            }
            i = i + 1;
        }
        proof {
            if has_rule_id(existing, rule.id@) {
                let j = choose|j: int| 0 <= j < existing.len() && (#[trigger] existing[j]).id@ == rule.id@;
                assert(rules@[j].same_as(existing[j]));
            }
        }
        match rule.validate() {
            Err(e) => {
                let mut errors: Vec<String> = Vec::new();
                errors.push(e.message());
                assert(crate::text::string_views(errors@) =~= seq![e@.message()]);
                return Err(LifecycleError::ValidationFailed { errors });
            },
            Ok(()) => {},
        }
        let ghost pushed = rule;
        rules.push(rule);
        proof {
            assert(same_rules(rules@, existing.push(pushed))) by {
                assert forall|j: int| 0 <= j < rules@.len() implies (#[trigger] rules@[j]).same_as(
                    existing.push(pushed)[j],
                ) by {
                    if j < existing.len() {
                        assert(rules@[j].same_as(existing[j]));
                    }
                }
            }
            lemma_findings_same(rules@, existing.push(pushed));
            assert(rules_wf(rules@)) by {
                if self.configs().dom().contains(bucket@) {
                    self.lifecycle_repo.lemma_stored_rules_wf(bucket@);
                }
                assert forall|j: int| 0 <= j < rules@.len() implies (#[trigger] rules@[j]).wf() by {
                    if j < existing.len() {
                        assert(existing[j].wf());
                        assert(rules@[j].same_as(existing[j]));
                    }
                }
            }
        }
        let r = self.store_rules(bucket, rules);
        proof {
            if r is Ok {
                assert forall|j: int| 0 <= j < existing.len() + 1 implies (
                #[trigger] self.configs()[bucket@].rules@[j]).same_as(existing.push(pushed)[j]) by {
                    assert(self.configs()[bucket@].rules@[j].same_as(rules@[j]));
                    if j < existing.len() {
                        assert(rules@[j].same_as(existing[j]));
                    }
                }
            }
        }
        r
    }

    /// Removes every rule with this id from the bucket's configuration; the configuration is
    /// deleted when no rule remains. Nothing happens when the bucket has no configuration;
    /// `RuleNotFound` when no rule has the id.
    pub fn remove_rule(&mut self, bucket: &BucketName, rule_id: &str) -> (r: Result<
        (),
        LifecycleError,
    >)
        requires
            old(self).wf(),
        ensures
            final(self).wf(),
            final(self).store_contents() == old(self).store_contents(),
            final(self).statuses() == old(self).statuses(),
            rule_removed(old(self).configs(), final(self).configs(), bucket@, rule_id@, r),
    {
        let ghost existing = bucket_rules(self.configs(), bucket@);
        let rules = match self.get_lifecycle_configuration(bucket) {
            Ok(Some(c)) => c.rules,
            Ok(None) => {
                return Ok(());
            },
            Err(e) => {
                return Err(e);
            },
        };
        proof {
            self.lifecycle_repo.lemma_stored_rules_wf(bucket@);
        }
        let original_len = rules.len();
        let key = String::from_str(rule_id);
        let mut kept: Vec<LifecycleRule> = Vec::new();
        let mut i: usize = 0;
        assert(rules@.take(0) =~= Seq::<LifecycleRule>::empty());
        while i < rules.len()
            invariant
                i <= rules@.len(),
                key@ == rule_id@,
                same_rules(kept@, without_id(rules@.take(i as int), rule_id@)),
            decreases rules@.len() - i,
        {
            let ghost t = rules@.take(i + 1);
            assert(t.drop_last() =~= rules@.take(i as int));
            assert(t.last() == rules@[i as int]);
            let ghost before_kept = kept@;
            if rules[i].id != key {
                kept.push(rules[i].clone());
                proof {
                    let w = without_id(rules@.take(i as int), rule_id@);
                    assert forall|j: int| 0 <= j < kept@.len() implies (#[trigger] kept@[j]).same_as(
                        w.push(rules@[i as int])[j],
                    ) by {
                        if j < before_kept.len() {
                            assert(kept@[j] == before_kept[j]);
                        }
                    }
                }
            }
            i = i + 1;
        }
        assert(rules@.take(rules@.len() as int) =~= rules@);
        proof {
            lemma_without_id_same(rules@, existing, rule_id@);
            lemma_without_id_len(rules@, rule_id@);
            lemma_without_id_len(existing, rule_id@);
            assert(same_rules(kept@, without_id(existing, rule_id@))) by {
                assert forall|j: int| 0 <= j < kept@.len() implies (#[trigger] kept@[j]).same_as(
                    without_id(existing, rule_id@)[j],
                ) by {
                    assert(kept@[j].same_as(without_id(rules@, rule_id@)[j]));
                    assert(without_id(rules@, rule_id@)[j].same_as(without_id(existing, rule_id@)[j]));
                }
            }
            if has_rule_id(rules@, rule_id@) != has_rule_id(existing, rule_id@) {
                if has_rule_id(rules@, rule_id@) {
                    let j = choose|j: int| 0 <= j < rules@.len() && (#[trigger] rules@[j]).id@ == rule_id@;
                    assert(rules@[j].same_as(existing[j]));
                } else {
                    let j = choose|j: int| 0 <= j < existing.len() && (#[trigger] existing[j]).id@ == rule_id@;
                    assert(rules@[j].same_as(existing[j]));
                }
            }
            lemma_findings_same(kept@, without_id(existing, rule_id@));
        }
        if kept.len() == original_len {
            return Err(LifecycleError::RuleNotFound { rule_id: String::from_str(rule_id) });
        }
        if kept.len() == 0 {
            return self.delete_lifecycle_configuration(bucket);
        }
        proof {
            assert(rules_wf(kept@)) by {
                assert forall|j: int| 0 <= j < kept@.len() implies (#[trigger] kept@[j]).wf() by {
                    assert(without_id(existing, rule_id@)[j].wf());
                    assert(kept@[j].same_as(without_id(existing, rule_id@)[j]));
                }
            }
        }
        let ghost kept_rules = kept@;
        let r = self.store_rules(bucket, kept);
        proof {
            if r is Ok {
                let w = without_id(existing, rule_id@);
                assert forall|j: int| 0 <= j < w.len() implies (
                #[trigger] self.configs()[bucket@].rules@[j]).same_as(w[j]) by {
                    assert(self.configs()[bucket@].rules@[j].same_as(kept_rules[j]));
                    assert(kept_rules[j].same_as(w[j]));
                }
            }
        }
        r
    }
}

/// What processing the bucket's lifecycle rules reports in `res` and does: when the
/// bucket's objects cannot be listed, one system error and nothing changed, the processing
/// left marked running; otherwise the listed objects counted, the actions applied and their
/// failures reported, and the processing marked finished.
pub open spec fn bucket_processed(
    before: LifecycleServiceImpl,
    after: LifecycleServiceImpl,
    bucket: Seq<char>,
    res: BucketLifecycleResults,
) -> bool {
    res.bucket@ == bucket && ((exists|e: StorageError|
        listing_failed(e, before.store_contents(), bucket) && res.objects_processed == 0
            && res.objects_affected == 0 && res.actions_applied == 0 && error_models(
            res.errors@,
        ) == seq![
            ErrorModel {
                key: "unknown"@,
                rule_id: "system"@,
                message: "Failed to list bucket objects: "@ + e@.message(),
            },
        ] && after.store_contents() == before.store_contents()
            && after.statuses()[bucket].is_running && after.statuses()[bucket].last_run_results is None)
        || (exists|
        v: Vec<ObjectInfo>,
        t: int,
    |
        #![auto]
        listed(v, before.store_contents(), bucket) && res.objects_processed
            == v@.len() && res.objects_affected <= res.objects_processed && res.objects_affected == processing_summary(
            before.configs(),
            before.configured_names(),
            v@,
            t,
        ).0 && res.actions_applied == capped(
            processing_summary(before.configs(), before.configured_names(), v@, t).1,
        ) && error_models(res.errors@) == processing_summary(before.configs(), before.configured_names(), v@, t).2
            && after.store_contents() == processed_contents(
            before.configs(),
            before.configured_names(),
            v@,
            t,
            before.store_contents(),
        ) && !after.statuses()[bucket].is_running && same_results(
            after.statuses()[bucket].last_run_results,
            Some(res),
        )))
}

} // verus!
