use vstd::prelude::*;
use vstd::string::*;

use crate::filter::Filter;
use crate::tags::TagMap;
use crate::text::{chars_of, concat_str, str_eq};
use crate::time::UtcTime;
use crate::value_objects::{byte_len, BucketName, ObjectKey};

verus! {

/// Status of a lifecycle rule.
#[derive(Debug, Clone, Copy, PartialEq, Eq, Structural)]
pub enum RuleStatus {
    Enabled,
    Disabled,
}

impl Default for RuleStatus {
    fn default() -> (r: Self)
        ensures
            r == RuleStatus::Disabled,
    {
        RuleStatus::Disabled
    }
}

/// Storage classes for lifecycle transitions.
#[derive(Debug, PartialEq)]
pub enum StorageClass {
    Standard,
    InfrequentAccess,
    Glacier,
    DeepArchive,
    Custom(String),
}

/// The storage class named `s`: one of the four standard names, or a custom class.
pub open spec fn storage_class_named(s: Seq<char>) -> StorageClassView {
    if s == "STANDARD"@ {
        StorageClassView::Standard
    } else if s == "STANDARD_IA"@ {
        StorageClassView::InfrequentAccess
    } else if s == "GLACIER"@ {
        StorageClassView::Glacier
    } else if s == "DEEP_ARCHIVE"@ {
        StorageClassView::DeepArchive
    } else {
        StorageClassView::Custom(s)
    }
}

/// A plain model of [`StorageClass`].
pub enum StorageClassView {
    Standard,
    InfrequentAccess,
    Glacier,
    DeepArchive,
    Custom(Seq<char>),
}

impl StorageClassView {
    /// The name of the storage class.
    pub open spec fn name(self) -> Seq<char> {
        match self {
            StorageClassView::Standard => "STANDARD"@,
            StorageClassView::InfrequentAccess => "STANDARD_IA"@,
            StorageClassView::Glacier => "GLACIER"@,
            StorageClassView::DeepArchive => "DEEP_ARCHIVE"@,
            StorageClassView::Custom(s) => s,
        }
    }
}

impl View for StorageClass {
    type V = StorageClassView;

    open spec fn view(&self) -> StorageClassView {
        match self {
            StorageClass::Standard => StorageClassView::Standard,
            StorageClass::InfrequentAccess => StorageClassView::InfrequentAccess,
            StorageClass::Glacier => StorageClassView::Glacier,
            StorageClass::DeepArchive => StorageClassView::DeepArchive,
            StorageClass::Custom(s) => StorageClassView::Custom(s@),
        }
    }
}

impl Clone for StorageClass {
    fn clone(&self) -> (r: Self)
        ensures
            r@ == self@,
    {
        match self {
            StorageClass::Standard => StorageClass::Standard,
            StorageClass::InfrequentAccess => StorageClass::InfrequentAccess,
            StorageClass::Glacier => StorageClass::Glacier,
            StorageClass::DeepArchive => StorageClass::DeepArchive,
            StorageClass::Custom(s) => StorageClass::Custom(s.clone()),
        }
    }
}

impl StorageClass {
    /// The name of the storage class.
    pub fn as_str(&self) -> (r: &str)
        ensures
            r@ == self@.name(),
    {
        match self {
            StorageClass::Standard => "STANDARD",
            StorageClass::InfrequentAccess => "STANDARD_IA",
            StorageClass::Glacier => "GLACIER",
            StorageClass::DeepArchive => "DEEP_ARCHIVE",
            StorageClass::Custom(s) => s.as_str(),
        }
    }

    /// The storage class with this name; unknown names become custom classes.
    pub fn from_str(s: &str) -> (r: StorageClass)
        ensures
            r@ == storage_class_named(s@),
    {
        if str_eq(s, "STANDARD") {
            StorageClass::Standard
        } else if str_eq(s, "STANDARD_IA") {
            StorageClass::InfrequentAccess
        } else if str_eq(s, "GLACIER") {
            StorageClass::Glacier
        } else if str_eq(s, "DEEP_ARCHIVE") {
            StorageClass::DeepArchive
        } else {
            StorageClass::Custom(String::from_str(s))
        }
    }
}

/// Naming a storage class by its name gives it back.
pub proof fn lemma_storage_class_name_roundtrip(c: StorageClassView)
    requires
        c matches StorageClassView::Custom(s) ==> storage_class_named(s) == c,
    ensures
        storage_class_named(c.name()) == c,
{
    reveal_strlit("STANDARD");
    reveal_strlit("STANDARD_IA");
    reveal_strlit("GLACIER");
    reveal_strlit("DEEP_ARCHIVE");
    assert("STANDARD"@.len() == 8);
    assert("STANDARD_IA"@.len() == 11);
    assert("GLACIER"@.len() == 7);
    assert("DEEP_ARCHIVE"@.len() == 12);
}

/// Actions that lifecycle rules take.
#[derive(Debug)]
pub enum LifecycleAction {
    /// Delete objects after a number of days or at a date.
    Expiration { days: Option<u32>, date: Option<UtcTime> },
    /// Move objects to another storage class.
    Transition { days: Option<u32>, date: Option<UtcTime>, storage_class: StorageClass },
    /// Abort incomplete multipart uploads.
    AbortIncompleteMultipartUpload { days_after_initiation: u32 },
    /// Expire delete markers.
    ExpireDeleteMarker { days: u32 },
    /// Expire non-current versions.
    NonCurrentVersionExpiration { days: u32 },
    /// Move non-current versions to another storage class.
    NonCurrentVersionTransition { days: u32, storage_class: StorageClass },
}

impl Clone for LifecycleAction {
    fn clone(&self) -> (r: Self)
        ensures
            r == *self || (r matches LifecycleAction::Transition { days, date, storage_class }
                && self matches LifecycleAction::Transition {
                days: d2,
                date: t2,
                storage_class: s2,
            } && days == d2 && date == t2 && storage_class@ == s2@) || (
            r matches LifecycleAction::NonCurrentVersionTransition { days, storage_class }
                && self matches LifecycleAction::NonCurrentVersionTransition {
                days: d2,
                storage_class: s2,
            } && days == d2 && storage_class@ == s2@),
    {
        match self {
            LifecycleAction::Expiration { days, date } => LifecycleAction::Expiration {
                days: *days,
                date: *date,
            },
            LifecycleAction::Transition { days, date, storage_class } =>
                LifecycleAction::Transition {
                days: *days,
                date: *date,
                storage_class: storage_class.clone(),
            },
            LifecycleAction::AbortIncompleteMultipartUpload { days_after_initiation } =>
                LifecycleAction::AbortIncompleteMultipartUpload {
                days_after_initiation: *days_after_initiation,
            },
            LifecycleAction::ExpireDeleteMarker { days } => LifecycleAction::ExpireDeleteMarker {
                days: *days,
            },
            LifecycleAction::NonCurrentVersionExpiration { days } =>
                LifecycleAction::NonCurrentVersionExpiration { days: *days },
            LifecycleAction::NonCurrentVersionTransition { days, storage_class } =>
                LifecycleAction::NonCurrentVersionTransition {
                days: *days,
                storage_class: storage_class.clone(),
            },
        }
    }
}

/// A single lifecycle rule with MinIO-compatible settings.
#[derive(Debug)]
pub struct LifecycleRule {
    pub id: String,
    pub status: RuleStatus,
    pub filter: Filter,
    pub expiration_days: Option<u32>,
    pub expiration_date: Option<UtcTime>,
    pub expiration_expired_object_delete_marker: Option<bool>,
    pub expiration_expired_object_all_versions: Option<bool>,
    pub del_marker_expiration_days: Option<u32>,
    pub all_versions_expiration_days: Option<u32>,
    pub all_versions_expiration_delete_marker: Option<bool>,
    pub transition_days: Option<u32>,
    pub transition_date: Option<UtcTime>,
    pub transition_storage_class: Option<StorageClass>,
    pub noncurrent_version_expiration_noncurrent_days: Option<u32>,
    pub noncurrent_version_expiration_newer_versions: Option<u32>,
    pub noncurrent_version_transition_noncurrent_days: Option<u32>,
    pub noncurrent_version_transition_storage_class: Option<StorageClass>,
    pub noncurrent_version_transition_newer_versions: Option<u32>,
    pub abort_incomplete_multipart_upload_days_after_initiation: Option<u32>,
}

/// The view of an optional storage class.
pub open spec fn opt_class_view(c: Option<StorageClass>) -> Option<StorageClassView> {
    match c {
        Some(x) => Some(x@),
        None => None,
    }
}

/// A copy of an optional storage class.
pub fn clone_opt_class(c: &Option<StorageClass>) -> (r: Option<StorageClass>)
    ensures
        opt_class_view(r) == opt_class_view(*c),
{
    match c {
        Some(x) => Some(x.clone()),
        None => None,
    }
}

/// Dates in the rule lie in range.
pub open spec fn opt_time_wf(t: Option<UtcTime>) -> bool {
    match t {
        Some(x) => x.wf(),
        None => true,
    }
}

impl LifecycleRule {
    /// The filter's tag map and the rule's dates are well formed.
    pub open spec fn wf(self) -> bool {
        self.filter.wf() && opt_time_wf(self.expiration_date) && opt_time_wf(self.transition_date)
    }

    /// Two rules hold the same settings.
    pub open spec fn same_as(self, other: LifecycleRule) -> bool {
        &&& self.id@ == other.id@
        &&& self.status == other.status
        &&& self.filter.same_as(other.filter)
        &&& self.expiration_days == other.expiration_days
        &&& self.expiration_date == other.expiration_date
        &&& self.expiration_expired_object_delete_marker
            == other.expiration_expired_object_delete_marker
        &&& self.expiration_expired_object_all_versions
            == other.expiration_expired_object_all_versions
        &&& self.del_marker_expiration_days == other.del_marker_expiration_days
        &&& self.all_versions_expiration_days == other.all_versions_expiration_days
        &&& self.all_versions_expiration_delete_marker
            == other.all_versions_expiration_delete_marker
        &&& self.transition_days == other.transition_days
        &&& self.transition_date == other.transition_date
        &&& opt_class_view(self.transition_storage_class) == opt_class_view(
            other.transition_storage_class,
        )
        &&& self.noncurrent_version_expiration_noncurrent_days
            == other.noncurrent_version_expiration_noncurrent_days
        &&& self.noncurrent_version_expiration_newer_versions
            == other.noncurrent_version_expiration_newer_versions
        &&& self.noncurrent_version_transition_noncurrent_days
            == other.noncurrent_version_transition_noncurrent_days
        &&& opt_class_view(self.noncurrent_version_transition_storage_class) == opt_class_view(
            other.noncurrent_version_transition_storage_class,
        )
        &&& self.noncurrent_version_transition_newer_versions
            == other.noncurrent_version_transition_newer_versions
        &&& self.abort_incomplete_multipart_upload_days_after_initiation
            == other.abort_incomplete_multipart_upload_days_after_initiation
    }

    /// The rule defines at least one action.
    pub open spec fn spec_has_any_action(self) -> bool {
        ||| self.expiration_days is Some
        ||| self.expiration_date is Some
        ||| self.expiration_expired_object_delete_marker is Some
        ||| self.expiration_expired_object_all_versions is Some
        ||| self.del_marker_expiration_days is Some
        ||| self.all_versions_expiration_days is Some
        ||| self.transition_days is Some
        ||| self.transition_date is Some
        ||| self.noncurrent_version_expiration_noncurrent_days is Some
        ||| self.noncurrent_version_transition_noncurrent_days is Some
        ||| self.abort_incomplete_multipart_upload_days_after_initiation is Some
    }

    /// The error that validating the rule reports, checked in order; `None` when valid.
    pub open spec fn validation_error(self) -> Option<ValidationErrorView> {
        if self.id@.len() == 0 {
            Some(ValidationErrorView::EmptyRuleId)
        } else if byte_len(self.id@) > 255 {
            Some(ValidationErrorView::RuleIdTooLong(self.id@))
        } else if self.expiration_days is Some && self.expiration_date is Some {
            Some(ValidationErrorView::ConflictingExpirationSettings)
        } else if self.transition_days is Some && self.transition_date is Some {
            Some(ValidationErrorView::ConflictingTransitionSettings)
        } else if !self.spec_has_any_action() {
            Some(ValidationErrorView::NoActionsInRule(self.id@))
        } else {
            None
        }
    }

    /// A disabled rule with the given id, an empty filter and no actions.
    pub fn new(id: String) -> (r: LifecycleRule)
        ensures
            r.wf(),
            r.id@ == id@,
            r.status == RuleStatus::Disabled,
            r.filter.spec_is_empty(),
            !r.spec_has_any_action(),
            r.transition_storage_class is None,
            r.noncurrent_version_transition_storage_class is None,
            r.noncurrent_version_expiration_newer_versions is None,
            r.noncurrent_version_transition_newer_versions is None,
            r.all_versions_expiration_delete_marker is None,
    {
        LifecycleRule {
            id,
            status: RuleStatus::Disabled,
            filter: Filter::new(),
            expiration_days: None,
            expiration_date: None,
            expiration_expired_object_delete_marker: None,
            expiration_expired_object_all_versions: None,
            del_marker_expiration_days: None,
            all_versions_expiration_days: None,
            all_versions_expiration_delete_marker: None,
            transition_days: None,
            transition_date: None,
            transition_storage_class: None,
            noncurrent_version_expiration_noncurrent_days: None,
            noncurrent_version_expiration_newer_versions: None,
            noncurrent_version_transition_noncurrent_days: None,
            noncurrent_version_transition_storage_class: None,
            noncurrent_version_transition_newer_versions: None,
            abort_incomplete_multipart_upload_days_after_initiation: None,
        }
    }

    /// Whether the rule applies to the object: it is enabled and its filter passes the
    /// object's key, tags and size.
    pub fn matches(&self, key: &ObjectKey, tags: &TagMap, object_size: u64) -> (r: bool)
        requires
            self.wf(),
            tags.wf(),
        ensures
            r == (self.status == RuleStatus::Enabled && self.filter.spec_matches(
                key@,
                tags@,
                object_size,
            )),
    {
        if self.status != RuleStatus::Enabled {
            return false;
        }
        self.filter.matches(key.as_str(), tags, object_size)
    }

    /// Checks the rule: a non-empty id of at most 255 bytes, not both days and date for
    /// expiration or for transition, and at least one action.
    pub fn validate(&self) -> (r: Result<(), ValidationError>)
        ensures
            match self.validation_error() {
                Some(e) => r matches Err(err) && err@ == e,
                None => r is Ok,
            },
    {
        if chars_of(self.id.as_str()).len() == 0 {
            return Err(ValidationError::EmptyRuleId);
        }
        let n = self.id.as_str().len();
        assert(n == byte_len(self.id@));
        if n > 255 {
            return Err(ValidationError::RuleIdTooLong(self.id.clone()));
        }
        if self.expiration_days.is_some() && self.expiration_date.is_some() {
            return Err(ValidationError::ConflictingExpirationSettings);
        }
        if self.transition_days.is_some() && self.transition_date.is_some() {
            return Err(ValidationError::ConflictingTransitionSettings);
        }
        if !self.has_any_action() {
            return Err(ValidationError::NoActionsInRule(self.id.clone()));
        }
        Ok(())
    }

    /// Whether the rule defines at least one action.
    pub fn has_any_action(&self) -> (r: bool)
        ensures
            r == self.spec_has_any_action(),
    {
        self.expiration_days.is_some() || self.expiration_date.is_some()
            || self.expiration_expired_object_delete_marker.is_some()
            || self.expiration_expired_object_all_versions.is_some()
            || self.del_marker_expiration_days.is_some()
            || self.all_versions_expiration_days.is_some() || self.transition_days.is_some()
            || self.transition_date.is_some()
            || self.noncurrent_version_expiration_noncurrent_days.is_some()
            || self.noncurrent_version_transition_noncurrent_days.is_some()
            || self.abort_incomplete_multipart_upload_days_after_initiation.is_some()
    }
}

impl Clone for LifecycleRule {
    fn clone(&self) -> (r: Self)
        ensures
            r.same_as(*self),
    {
        LifecycleRule {
            id: self.id.clone(),
            status: self.status,
            filter: self.filter.clone(),
            expiration_days: self.expiration_days,
            expiration_date: self.expiration_date,
            expiration_expired_object_delete_marker: self.expiration_expired_object_delete_marker,
            expiration_expired_object_all_versions: self.expiration_expired_object_all_versions,
            del_marker_expiration_days: self.del_marker_expiration_days,
            all_versions_expiration_days: self.all_versions_expiration_days,
            all_versions_expiration_delete_marker: self.all_versions_expiration_delete_marker,
            transition_days: self.transition_days,
            transition_date: self.transition_date,
            transition_storage_class: clone_opt_class(&self.transition_storage_class),
            noncurrent_version_expiration_noncurrent_days:
                self.noncurrent_version_expiration_noncurrent_days,
            noncurrent_version_expiration_newer_versions:
                self.noncurrent_version_expiration_newer_versions,
            noncurrent_version_transition_noncurrent_days:
                self.noncurrent_version_transition_noncurrent_days,
            noncurrent_version_transition_storage_class: clone_opt_class(
                &self.noncurrent_version_transition_storage_class,
            ),
            noncurrent_version_transition_newer_versions:
                self.noncurrent_version_transition_newer_versions,
            abort_incomplete_multipart_upload_days_after_initiation:
                self.abort_incomplete_multipart_upload_days_after_initiation,
        }
    }
}

impl Default for LifecycleRule {
    fn default() -> (r: Self)
        ensures
            r.wf(),
            r.id@ == Seq::<char>::empty(),
            r.status == RuleStatus::Disabled,
            r.filter.spec_is_empty(),
            !r.spec_has_any_action(),
    {
        LifecycleRule::new(String::new())
    }
}

/// Lifecycle configuration of a bucket.
#[derive(Debug)]
pub struct LifecycleConfiguration {
    pub bucket: BucketName,
    pub rules: Vec<LifecycleRule>,
}

/// All rules are well formed.
pub open spec fn rules_wf(rules: Seq<LifecycleRule>) -> bool {
    forall|i: int| 0 <= i < rules.len() ==> (#[trigger] rules[i]).wf()
}

/// Two rule lists hold the same rules in the same order.
pub open spec fn same_rules(a: Seq<LifecycleRule>, b: Seq<LifecycleRule>) -> bool {
    a.len() == b.len() && forall|i: int| 0 <= i < a.len() ==> (#[trigger] a[i]).same_as(b[i])
}

/// Some rule before position `i` has the id of rule `i`.
pub open spec fn id_seen_before(rules: Seq<LifecycleRule>, i: int) -> bool {
    exists|j: int| 0 <= j < i && (#[trigger] rules[j]).id@ == rules[i].id@
}

/// The error that validating a configuration with these rules reports: rules are checked in
/// order, each for an id seen before, an id longer than 255 bytes, and no action.
pub open spec fn rules_validation_error(rules: Seq<LifecycleRule>) -> Option<
    ValidationErrorView,
>
    decreases rules.len(),
{
    if rules.len() == 0 {
        None
    } else {
        match rules_validation_error(rules.drop_last()) {
            Some(e) => Some(e),
            None => {
                let last = rules.last();
                if id_seen_before(rules, rules.len() - 1) {
                    Some(ValidationErrorView::DuplicateRuleId(last.id@))
                } else if byte_len(last.id@) > 255 {
                    Some(ValidationErrorView::RuleIdTooLong(last.id@))
                } else if !last.spec_has_any_action() {
                    Some(ValidationErrorView::NoActionsInRule(last.id@))
                } else {
                    None
                }
            },
        }
    }
}

/// A copy of a list of rules.
pub fn clone_rules(rules: &Vec<LifecycleRule>) -> (r: Vec<LifecycleRule>)
    ensures
        same_rules(r@, rules@),
        rules_wf(rules@) ==> rules_wf(r@),
{
    let mut r: Vec<LifecycleRule> = Vec::new();
    let mut i: usize = 0;
    while i < rules.len()
        invariant
            i <= rules@.len(),
            r@.len() == i,
            forall|k: int| 0 <= k < i ==> (#[trigger] r@[k]).same_as(rules@[k]),
        decreases rules@.len() - i,
    {
        r.push(rules[i].clone());
        i = i + 1;
    }
    proof {
        if rules_wf(rules@) {
            assert forall|k: int| 0 <= k < r@.len() implies (#[trigger] r@[k]).wf() by {
                assert(rules@[k].wf());
            }
        }
    }
    r
}

impl Clone for LifecycleConfiguration {
    fn clone(&self) -> (r: Self)
        ensures
            r.bucket@ == self.bucket@,
            same_rules(r.rules@, self.rules@),
            rules_wf(self.rules@) ==> rules_wf(r.rules@),
    {
        LifecycleConfiguration { bucket: self.bucket.clone(), rules: clone_rules(&self.rules) }
    }
}

proof fn lemma_rules_validation_error_step(rules: Seq<LifecycleRule>, i: int)
    requires
        0 <= i < rules.len(),
    ensures
        rules_validation_error(rules.take(i + 1)) == (match rules_validation_error(rules.take(i)) {
            Some(e) => Some(e),
            None => if id_seen_before(rules, i) {
                Some(ValidationErrorView::DuplicateRuleId(rules[i].id@))
            } else if byte_len(rules[i].id@) > 255 {
                Some(ValidationErrorView::RuleIdTooLong(rules[i].id@))
            } else if !rules[i].spec_has_any_action() {
                Some(ValidationErrorView::NoActionsInRule(rules[i].id@))
            } else {
                None
            },
        }),
{
    let t = rules.take(i + 1);
    assert(t.drop_last() =~= rules.take(i));
    assert(t.last() == rules[i]);
    assert(id_seen_before(t, i) == id_seen_before(rules, i)) by {
        if id_seen_before(rules, i) {
            let j = choose|j: int| 0 <= j < i && (#[trigger] rules[j]).id@ == rules[i].id@;
            assert(t[j] == rules[j]);
        }
        if id_seen_before(t, i) {
            let j = choose|j: int| 0 <= j < i && (#[trigger] t[j]).id@ == t[i].id@;
            assert(t[j] == rules[j]);
        }
    }
}

proof fn lemma_rules_validation_error_extends(rules: Seq<LifecycleRule>, i: int)
    requires
        0 <= i <= rules.len(),
        rules_validation_error(rules.take(i)) is Some,
    ensures
        rules_validation_error(rules) == rules_validation_error(rules.take(i)),
    decreases rules.len() - i,
{
    if i < rules.len() {
        lemma_rules_validation_error_step(rules, i);
        lemma_rules_validation_error_extends(rules, i + 1);
    } else {
        assert(rules.take(i) =~= rules);
    }
}

impl LifecycleConfiguration {
    /// The error that validating the configuration reports; `None` when valid.
    pub open spec fn validation_error(self) -> Option<ValidationErrorView> {
        rules_validation_error(self.rules@)
    }

    /// Checks the rules in order: no id repeated, no id longer than 255 bytes, and each
    /// rule defines an action.
    pub fn validate(&self) -> (r: Result<(), ValidationError>)
        ensures
            match self.validation_error() {
                Some(e) => r matches Err(err) && err@ == e,
                None => r is Ok,
            },
    {
        let mut seen: Vec<String> = Vec::new();
        let mut i: usize = 0;
        assert(self.rules@.take(0) =~= Seq::<LifecycleRule>::empty());
        while i < self.rules.len()
            invariant
                i <= self.rules@.len(),
                seen@.len() == i,
                forall|k: int| 0 <= k < i ==> (#[trigger] seen@[k])@ == self.rules@[k].id@,
                rules_validation_error(self.rules@.take(i as int)) is None,
            decreases self.rules@.len() - i,
        {
            proof {
                lemma_rules_validation_error_step(self.rules@, i as int);
            }
            let rule = &self.rules[i];
            let mut j: usize = 0;
            let mut dup = false;
            while j < i
                invariant
                    j <= i,
                    i < self.rules@.len(),
                    seen@.len() == i,
                    rule == self.rules@[i as int],
                    forall|k: int| 0 <= k < i ==> (#[trigger] seen@[k])@ == self.rules@[k].id@,
                    dup ==> id_seen_before(self.rules@, i as int),
                    !dup ==> forall|k: int| 0 <= k < j ==> (#[trigger] self.rules@[k]).id@
                        != rule.id@,
                decreases i - j,
            {
                if seen[j] == rule.id {
                    dup = true;
                    assert(self.rules@[j as int].id@ == self.rules@[i as int].id@);
                }
                j = j + 1;
            }
            if dup {
                proof {
                    lemma_rules_validation_error_extends(self.rules@, i + 1);
                }
                return Err(ValidationError::DuplicateRuleId(rule.id.clone()));
            }
            let n = rule.id.as_str().len();
            assert(n == byte_len(rule.id@));
            if n > 255 {
                proof {
                    lemma_rules_validation_error_extends(self.rules@, i + 1);
                }
                return Err(ValidationError::RuleIdTooLong(rule.id.clone()));
            }
            if !rule.has_any_action() {
                proof {
                    lemma_rules_validation_error_extends(self.rules@, i + 1);
                }
                return Err(ValidationError::NoActionsInRule(rule.id.clone()));
            }
            seen.push(rule.id.clone());
            i = i + 1;
        }
        assert(self.rules@.take(self.rules@.len() as int) =~= self.rules@);
        Ok(())
    }
}

/// Validation errors of lifecycle rules and configurations.
#[derive(Debug, Clone, PartialEq)]
pub enum ValidationError {
    DuplicateRuleId(String),
    RuleIdTooLong(String),
    NoActionsInRule(String),
    EmptyRuleId,
    ConflictingExpirationSettings,
    ConflictingTransitionSettings,
}

/// A plain model of [`ValidationError`].
pub enum ValidationErrorView {
    DuplicateRuleId(Seq<char>),
    RuleIdTooLong(Seq<char>),
    NoActionsInRule(Seq<char>),
    EmptyRuleId,
    ConflictingExpirationSettings,
    ConflictingTransitionSettings,
}

impl View for ValidationError {
    type V = ValidationErrorView;

    open spec fn view(&self) -> ValidationErrorView {
        match self {
            ValidationError::DuplicateRuleId(s) => ValidationErrorView::DuplicateRuleId(s@),
            ValidationError::RuleIdTooLong(s) => ValidationErrorView::RuleIdTooLong(s@),
            ValidationError::NoActionsInRule(s) => ValidationErrorView::NoActionsInRule(s@),
            ValidationError::EmptyRuleId => ValidationErrorView::EmptyRuleId,
            ValidationError::ConflictingExpirationSettings =>
                ValidationErrorView::ConflictingExpirationSettings,
            ValidationError::ConflictingTransitionSettings =>
                ValidationErrorView::ConflictingTransitionSettings,
        }
    }
}

impl ValidationErrorView {
    /// The human-readable message of the error.
    pub open spec fn message(self) -> Seq<char> {
        match self {
            ValidationErrorView::DuplicateRuleId(id) => "Duplicate rule ID: "@ + id,
            ValidationErrorView::RuleIdTooLong(id) => "Rule ID too long: "@ + id,
            ValidationErrorView::NoActionsInRule(id) => "No actions defined in rule: "@ + id,
            ValidationErrorView::EmptyRuleId => "Rule ID cannot be empty"@,
            ValidationErrorView::ConflictingExpirationSettings =>
                "Expiration cannot specify both Days and Date"@,
            ValidationErrorView::ConflictingTransitionSettings =>
                "Transition cannot specify both Days and Date"@,
        }
    }
}

impl ValidationError {
    /// The human-readable message of the error (what `Display` shows).
    pub fn message(&self) -> (r: String)
        ensures
            r@ == self@.message(),
    {
        match self {
            ValidationError::DuplicateRuleId(id) => concat_str("Duplicate rule ID: ", id.as_str()),
            ValidationError::RuleIdTooLong(id) => concat_str("Rule ID too long: ", id.as_str()),
            ValidationError::NoActionsInRule(id) => concat_str(
                "No actions defined in rule: ",
                id.as_str(),
            ),
            ValidationError::EmptyRuleId => String::from_str("Rule ID cannot be empty"),
            ValidationError::ConflictingExpirationSettings => String::from_str(
                "Expiration cannot specify both Days and Date",
            ),
            ValidationError::ConflictingTransitionSettings => String::from_str(
                "Transition cannot specify both Days and Date",
            ),
        }
    }
}

/// Request to evaluate lifecycle rules for an object.
#[derive(Debug)]
pub struct EvaluateLifecycleRequest {
    pub key: ObjectKey,
    pub object_created_at: UtcTime,
    pub object_tags: TagMap,
    pub is_delete_marker: bool,
    pub is_current_version: bool,
}

impl EvaluateLifecycleRequest {
    /// The tag map and the creation time are well formed.
    pub open spec fn wf(self) -> bool {
        self.object_tags.wf() && self.object_created_at.wf()
    }
}

/// An action that lifecycle rules call for on an object.
#[derive(Debug)]
pub struct ApplicableAction {
    pub rule_id: String,
    pub action: LifecycleAction,
    pub reason: String,
}

impl Clone for ApplicableAction {
    fn clone(&self) -> (r: Self)
        ensures
            r.rule_id@ == self.rule_id@,
            r.reason@ == self.reason@,
            action_view(r.action) == action_view(self.action),
    {
        ApplicableAction {
            rule_id: self.rule_id.clone(),
            action: self.action.clone(),
            reason: self.reason.clone(),
        }
    }
}

/// A plain model of [`LifecycleAction`].
pub enum LifecycleActionView {
    Expiration { days: Option<u32>, date: Option<int> },
    Transition { days: Option<u32>, date: Option<int>, storage_class: StorageClassView },
    AbortIncompleteMultipartUpload { days_after_initiation: u32 },
    ExpireDeleteMarker { days: u32 },
    NonCurrentVersionExpiration { days: u32 },
    NonCurrentVersionTransition { days: u32, storage_class: StorageClassView },
}

/// The view of an optional instant.
pub open spec fn opt_time_view(t: Option<UtcTime>) -> Option<int> {
    match t {
        Some(x) => Some(x@),
        None => None,
    }
}

/// The model of an action.
pub open spec fn action_view(a: LifecycleAction) -> LifecycleActionView {
    match a {
        LifecycleAction::Expiration { days, date } => LifecycleActionView::Expiration {
            days,
            date: opt_time_view(date),
        },
        LifecycleAction::Transition { days, date, storage_class } =>
            LifecycleActionView::Transition {
            days,
            date: opt_time_view(date),
            storage_class: storage_class@,
        },
        LifecycleAction::AbortIncompleteMultipartUpload { days_after_initiation } =>
            LifecycleActionView::AbortIncompleteMultipartUpload { days_after_initiation },
        LifecycleAction::ExpireDeleteMarker { days } => LifecycleActionView::ExpireDeleteMarker {
            days,
        },
        LifecycleAction::NonCurrentVersionExpiration { days } =>
            LifecycleActionView::NonCurrentVersionExpiration { days },
        LifecycleAction::NonCurrentVersionTransition { days, storage_class } =>
            LifecycleActionView::NonCurrentVersionTransition {
            days,
            storage_class: storage_class@,
        },
    }
}

/// The result of evaluating lifecycle rules for an object.
#[derive(Debug)]
pub struct LifecycleEvaluationResult {
    pub actions_to_apply: Vec<ApplicableAction>,
}

} // verus!
