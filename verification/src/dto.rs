use vstd::prelude::*;

use crate::errors::{
    LifecycleError, LifecycleErrorView, StorageError, StorageErrorView, ValidationError,
    ValidationErrorView,
};
use crate::evaluation::{action_debug, action_debug_text, action_wf, actions_wf};
use crate::filter::{opt_view, Filter};
use crate::lifecycle::{
    clone_opt_class, opt_class_view, opt_time_wf, storage_class_named, ApplicableAction,
    LifecycleAction, LifecycleConfiguration, LifecycleEvaluationResult, LifecycleRule,
    RuleStatus, StorageClass, StorageClassView,
};
use crate::models::clone_opt_string;
use crate::tags::TagMap;
use crate::text::{str_eq, string_views};
use crate::time::{now, utc_rfc3339, utc_rfc3339_text, UtcTime};
use crate::value_objects::{bucket_name_error, BucketName};

verus! {

/// The fields of a request that creates or updates an object.
#[derive(Debug)]
pub struct CreateObjectDto {
    pub key: String,
    pub content_type: Option<String>,
    pub metadata: Option<TagMap>,
    pub storage_class: Option<String>,
}

/// The fields of a request that lists objects.
#[derive(Debug)]
pub struct ListObjectsDto {
    pub prefix: Option<String>,
    pub max_results: Option<usize>,
    pub continuation_token: Option<String>,
}

/// A rule filter as exchanged over HTTP.
#[derive(Debug)]
pub struct FilterDto {
    pub prefix: Option<String>,
    pub tags: Option<TagMap>,
    pub object_size_greater_than: Option<u64>,
    pub object_size_less_than: Option<u64>,
}

/// The tag map, when there is one, is well formed.
pub open spec fn opt_tags_wf(t: Option<TagMap>) -> bool {
    match t {
        Some(m) => m.wf(),
        None => true,
    }
}

impl FilterDto {
    /// The tag map is well formed.
    pub open spec fn wf(self) -> bool {
        opt_tags_wf(self.tags)
    }

    /// The filter that this description sets up: each field that is given is set, the
    /// others stay empty.
    pub fn into_filter(self) -> (r: Filter)
        requires
            self.wf(),
        ensures
            r.wf(),
            opt_view(r.prefix) == opt_view(self.prefix),
            r.tags@ == (match self.tags {
                Some(t) => t@,
                None => Map::<Seq<char>, Seq<char>>::empty(),
            }),
            r.object_size_greater_than == self.object_size_greater_than,
            r.object_size_less_than == self.object_size_less_than,
    {
        let mut filter = Filter::new();
        if let Some(prefix) = self.prefix {
            filter.prefix = Some(prefix);
        }
        if let Some(tags) = self.tags {
            filter.tags = tags;
        }
        if let Some(size) = self.object_size_greater_than {
            filter.object_size_greater_than = Some(size);
        }
        if let Some(size) = self.object_size_less_than {
            filter.object_size_less_than = Some(size);
        }
        filter
    }

    /// The description of a filter; tags are left out when there are none.
    pub fn from_filter(filter: &Filter) -> (r: FilterDto)
        requires
            filter.wf(),
        ensures
            r.wf(),
            opt_view(r.prefix) == opt_view(filter.prefix),
            match r.tags {
                Some(t) => t@ == filter.tags@ && filter.tags@.len() > 0,
                None => filter.tags@.len() == 0,
            },
            r.object_size_greater_than == filter.object_size_greater_than,
            r.object_size_less_than == filter.object_size_less_than,
    {
        let prefix = match filter.get_prefix() {
            Some(p) => Some(p.clone()),
            None => None,
        };
        FilterDto {
            prefix,
            tags: filter.get_tags(),
            object_size_greater_than: filter.get_object_size_greater_than(),
            object_size_less_than: filter.get_object_size_less_than(),
        }
    }
}

/// A lifecycle rule as exchanged over HTTP.
#[derive(Debug)]
pub struct LifecycleRuleDto {
    pub id: String,
    pub status: String,
    pub filter: FilterDto,
    pub expiration_days: Option<u32>,
    pub expiration_date: Option<UtcTime>,
    pub transition_days: Option<u32>,
    pub transition_storage_class: Option<String>,
    pub del_marker_expiration_days: Option<u32>,
    pub noncurrent_version_expiration_noncurrent_days: Option<u32>,
    pub noncurrent_version_transition_noncurrent_days: Option<u32>,
    pub noncurrent_version_transition_storage_class: Option<String>,
    pub abort_incomplete_multipart_upload_days_after_initiation: Option<u32>,
}

/// The storage class named by an optional name.
pub open spec fn opt_class_named(s: Option<String>) -> Option<StorageClassView> {
    match s {
        Some(x) => Some(storage_class_named(x@)),
        None => None,
    }
}

fn class_named(s: Option<String>) -> (r: Option<StorageClass>)
    ensures
        opt_class_view(r) == opt_class_named(s),
{
    match s {
        Some(x) => Some(StorageClass::from_str(x.as_str())),
        None => None,
    }
}

/// The name of an optional storage class.
pub open spec fn opt_class_name(c: Option<StorageClass>) -> Option<Seq<char>> {
    match c {
        Some(x) => Some(x@.name()),
        None => None,
    }
}

fn class_name(c: &Option<StorageClass>) -> (r: Option<String>)
    ensures
        opt_view(r) == opt_class_name(*c),
{
    match c {
        Some(x) => Some(String::from_str(x.as_str())),
        None => None,
    }
}

/// The rule status named `s`: only `Enabled` and `Disabled` name one.
pub open spec fn status_named(s: Seq<char>) -> Option<RuleStatus> {
    if s == "Enabled"@ {
        Some(RuleStatus::Enabled)
    } else if s == "Disabled"@ {
        Some(RuleStatus::Disabled)
    } else {
        None
    }
}

/// The name of a rule status.
pub open spec fn status_name(s: RuleStatus) -> Seq<char> {
    match s {
        RuleStatus::Enabled => "Enabled"@,
        RuleStatus::Disabled => "Disabled"@,
    }
}

impl LifecycleRuleDto {
    /// The filter's tags and the date are well formed.
    pub open spec fn wf(self) -> bool {
        self.filter.wf() && opt_time_wf(self.expiration_date)
    }

    /// The rule stands for this description with this status: the description's id,
    /// filter and settings, and none of the settings the description has no field for.
    pub open spec fn describes(self, rule: LifecycleRule, st: RuleStatus) -> bool {
        &&& rule.wf()
        &&& rule.id@ == self.id@
        &&& rule.status == st
        &&& opt_view(rule.filter.prefix) == opt_view(self.filter.prefix)
        &&& rule.filter.tags@ == match self.filter.tags {
            Some(t) => t@,
            None => Map::<Seq<char>, Seq<char>>::empty(),
        }
        &&& rule.filter.object_size_greater_than == self.filter.object_size_greater_than
        &&& rule.filter.object_size_less_than == self.filter.object_size_less_than
        &&& rule.expiration_days == self.expiration_days
        &&& rule.expiration_date == self.expiration_date
        &&& rule.transition_days == self.transition_days
        &&& opt_class_view(rule.transition_storage_class) == opt_class_named(self.transition_storage_class)
        &&& rule.del_marker_expiration_days == self.del_marker_expiration_days
        &&& rule.noncurrent_version_expiration_noncurrent_days
            == self.noncurrent_version_expiration_noncurrent_days
        &&& rule.noncurrent_version_transition_noncurrent_days
            == self.noncurrent_version_transition_noncurrent_days
        &&& opt_class_view(rule.noncurrent_version_transition_storage_class) == opt_class_named(
            self.noncurrent_version_transition_storage_class,
        )
        &&& rule.abort_incomplete_multipart_upload_days_after_initiation
            == self.abort_incomplete_multipart_upload_days_after_initiation
        &&& rule.expiration_expired_object_delete_marker is None
        &&& rule.expiration_expired_object_all_versions is None
        &&& rule.all_versions_expiration_days is None
        &&& rule.all_versions_expiration_delete_marker is None
        &&& rule.transition_date is None
        &&& rule.noncurrent_version_expiration_newer_versions is None
        &&& rule.noncurrent_version_transition_newer_versions is None
    }

    /// The rule this description stands for, or `InvalidField` when the status is neither
    /// `Enabled` nor `Disabled`. Settings the description has no field for stay unset.
    pub fn into_rule(self) -> (r: Result<LifecycleRule, ValidationError>)
        requires
            self.wf(),
        ensures
            match status_named(self.status@) {
                None => r matches Err(e) && e@ == (ValidationErrorView::InvalidField {
                    field: "status"@,
                    value: self.status@,
                    expected: "Enabled or Disabled"@,
                }),
                Some(st) => r matches Ok(rule) && self.describes(rule, st),
            },
    {
        let status = if str_eq(self.status.as_str(), "Enabled") {
            RuleStatus::Enabled
        } else if str_eq(self.status.as_str(), "Disabled") {
            RuleStatus::Disabled
        } else {
            return Err(
                ValidationError::InvalidField {
                    field: String::from_str("status"),
                    value: self.status,
                    expected: String::from_str("Enabled or Disabled"),
                },
            );
        };
        let mut rule = LifecycleRule::new(self.id);
        rule.status = status;
        rule.filter = self.filter.into_filter();
        rule.expiration_days = self.expiration_days;
        rule.expiration_date = self.expiration_date;
        rule.transition_days = self.transition_days;
        rule.transition_storage_class = class_named(self.transition_storage_class);
        rule.del_marker_expiration_days = self.del_marker_expiration_days;
        rule.noncurrent_version_expiration_noncurrent_days =
            self.noncurrent_version_expiration_noncurrent_days;
        rule.noncurrent_version_transition_noncurrent_days =
            self.noncurrent_version_transition_noncurrent_days;
        rule.noncurrent_version_transition_storage_class = class_named(
            self.noncurrent_version_transition_storage_class,
        );
        rule.abort_incomplete_multipart_upload_days_after_initiation =
            self.abort_incomplete_multipart_upload_days_after_initiation;
        Ok(rule)
    }

    /// The description of a rule; settings it has no field for are left out.
    pub fn from_rule(rule: &LifecycleRule) -> (r: LifecycleRuleDto)
        requires
            rule.wf(),
        ensures
            r.wf(),
            r.id@ == rule.id@,
            r.status@ == status_name(rule.status),
            opt_view(r.filter.prefix) == opt_view(rule.filter.prefix),
            match r.filter.tags {
                Some(t) => t@ == rule.filter.tags@ && rule.filter.tags@.len() > 0,
                None => rule.filter.tags@.len() == 0,
            },
            r.filter.object_size_greater_than == rule.filter.object_size_greater_than,
            r.filter.object_size_less_than == rule.filter.object_size_less_than,
            r.expiration_days == rule.expiration_days,
            r.expiration_date == rule.expiration_date,
            r.transition_days == rule.transition_days,
            opt_view(r.transition_storage_class) == opt_class_name(rule.transition_storage_class),
            r.del_marker_expiration_days == rule.del_marker_expiration_days,
            r.noncurrent_version_expiration_noncurrent_days
                == rule.noncurrent_version_expiration_noncurrent_days,
            r.noncurrent_version_transition_noncurrent_days
                == rule.noncurrent_version_transition_noncurrent_days,
            opt_view(r.noncurrent_version_transition_storage_class) == opt_class_name(
                rule.noncurrent_version_transition_storage_class,
            ),
            r.abort_incomplete_multipart_upload_days_after_initiation
                == rule.abort_incomplete_multipart_upload_days_after_initiation,
    {
        LifecycleRuleDto {
            id: rule.id.clone(),
            status: match rule.status {
                RuleStatus::Enabled => String::from_str("Enabled"),
                RuleStatus::Disabled => String::from_str("Disabled"),
            },
            filter: FilterDto::from_filter(&rule.filter),
            expiration_days: rule.expiration_days,
            expiration_date: rule.expiration_date,
            transition_days: rule.transition_days,
            transition_storage_class: class_name(&rule.transition_storage_class),
            del_marker_expiration_days: rule.del_marker_expiration_days,
            noncurrent_version_expiration_noncurrent_days:
                rule.noncurrent_version_expiration_noncurrent_days,
            noncurrent_version_transition_noncurrent_days:
                rule.noncurrent_version_transition_noncurrent_days,
            noncurrent_version_transition_storage_class: class_name(
                &rule.noncurrent_version_transition_storage_class,
            ),
            abort_incomplete_multipart_upload_days_after_initiation:
                rule.abort_incomplete_multipart_upload_days_after_initiation,
        }
    }
}

/// A bucket's lifecycle configuration as exchanged over HTTP.
#[derive(Debug)]
pub struct LifecycleConfigurationDto {
    pub bucket: String,
    pub rules: Vec<LifecycleRuleDto>,
}

/// The first rule description, in order, whose status names no status.
pub open spec fn first_bad_status(rules: Seq<LifecycleRuleDto>) -> Option<int> {
    if exists|i: int| 0 <= i < rules.len() && status_named(rules[i].status@) is None {
        Some(
            choose|i: int|
                0 <= i < rules.len() && status_named(rules[i].status@) is None && forall|j: int|
                    0 <= j < i ==> status_named(#[trigger] rules[j].status@) is Some,
        )
    } else {
        None
    }
}

impl LifecycleConfigurationDto {
    /// Every rule description is well formed.
    pub open spec fn wf(self) -> bool {
        forall|i: int| 0 <= i < self.rules@.len() ==> (#[trigger] self.rules@[i]).wf()
    }

    /// The configuration stands for this description: its bucket, and each rule described,
    /// in order, with the status it names.
    pub open spec fn describes(self, c: LifecycleConfiguration) -> bool {
        &&& c.bucket@ == self.bucket@
        &&& c.rules@.len() == self.rules@.len()
        &&& forall|k: int|
            0 <= k < c.rules@.len() ==> status_named(self.rules@[k].status@) is Some
                && self.rules@[k].describes(#[trigger] c.rules@[k], status_named(self.rules@[k].status@)->0)
    }

    /// The configuration this description stands for: the bucket name is checked first,
    /// then each rule in order; the first error found is returned.
    pub fn into_configuration(self) -> (r: Result<LifecycleConfiguration, ValidationError>)
        requires
            self.wf(),
        ensures
            match bucket_name_error(self.bucket@) {
                Some(e) => r matches Err(err) && err@ == e,
                None => match first_bad_status(self.rules@) {
                    Some(i) => r matches Err(err) && err@ == (ValidationErrorView::InvalidField {
                        field: "status"@,
                        value: self.rules@[i].status@,
                        expected: "Enabled or Disabled"@,
                    }),
                    None => r matches Ok(c) && self.describes(c),
                },
            },
    {
        let bucket = match BucketName::new(self.bucket) {
            Ok(b) => b,
            Err(e) => { return Err(e); },
        };
        let ghost dtos = self.rules@;
        let mut rules: Vec<LifecycleRule> = Vec::new();
        let mut source = self.rules;
        let total: usize = source.len();
        let mut i: usize = 0;
        while source.len() > 0
            invariant
                i + source@.len() == dtos.len(),
                dtos.len() == total,
                dtos == self.rules@,
                source@ == dtos.skip(i as int),
                forall|k: int| 0 <= k < dtos.len() ==> (#[trigger] dtos[k]).wf(),
                rules@.len() == i,
                forall|k: int| 0 <= k < i ==> status_named(#[trigger] dtos[k].status@) is Some,
                forall|k: int|
                    0 <= k < i ==> dtos[k].describes(#[trigger] rules@[k], status_named(dtos[k].status@)->0),
                bucket@ == self.bucket@,
                bucket_name_error(self.bucket@) is None,
            decreases source@.len(),
        {
            let dto = source.remove(0);
            assert(dto == dtos[i as int]);
            assert(source@ =~= dtos.skip(i + 1));
            match dto.into_rule() {
                Ok(rule) => {
                    rules.push(rule);
                },
                Err(e) => {
                    proof {
                        let k = choose|k: int|
                            0 <= k < dtos.len() && status_named(dtos[k].status@) is None
                                && forall|j: int| 0 <= j < k ==> status_named(#[trigger] dtos[j].status@) is Some;
                        assert(0 <= i < dtos.len() && status_named(dtos[i as int].status@) is None);
                        assert(k == i as int) by {
                            if k < i {
                                assert(status_named(dtos[k].status@) is Some);
                            } else if k > i {
                                assert(status_named(dtos[i as int].status@) is Some);
                            }
                        }
                    }
                    return Err(e);
                },
            }
            i = i + 1;
        }
        proof {
            assert(!exists|k: int| 0 <= k < dtos.len() && status_named(dtos[k].status@) is None);
        }
        Ok(LifecycleConfiguration { bucket, rules })
    }

    /// The description of a configuration.
    pub fn from_configuration(config: &LifecycleConfiguration) -> (r: LifecycleConfigurationDto)
        requires
            forall|k: int| 0 <= k < config.rules@.len() ==> (#[trigger] config.rules@[k]).wf(),
        ensures
            r.wf(),
            r.bucket@ == config.bucket@,
            r.rules@.len() == config.rules@.len(),
            forall|k: int|
                0 <= k < r.rules@.len() ==> (#[trigger] r.rules@[k]).id@ == config.rules@[k].id@
                    && r.rules@[k].status@ == status_name(config.rules@[k].status),
    {
        let mut rules: Vec<LifecycleRuleDto> = Vec::new();
        let mut i: usize = 0;
        while i < config.rules.len()
            invariant
                i <= config.rules@.len(),
                forall|k: int| 0 <= k < config.rules@.len() ==> (#[trigger] config.rules@[k]).wf(),
                rules@.len() == i,
                forall|k: int|
                    0 <= k < i ==> (#[trigger] rules@[k]).wf() && rules@[k].id@ == config.rules@[k].id@
                        && rules@[k].status@ == status_name(config.rules@[k].status),
            decreases config.rules@.len() - i,
        {
            rules.push(LifecycleRuleDto::from_rule(&config.rules[i]));
            i = i + 1;
        }
        LifecycleConfigurationDto { bucket: String::from_str(config.bucket.as_str()), rules }
    }
}

/// The fields of a request that evaluates lifecycle rules for an object.
#[derive(Debug)]
pub struct EvaluateLifecycleDto {
    pub key: String,
    pub object_created_at: Option<UtcTime>,
    pub object_tags: Option<TagMap>,
    pub is_delete_marker: Option<bool>,
    pub is_current_version: Option<bool>,
}

/// A value in the details of a response.
#[derive(Debug)]
pub enum DetailValue {
    Number(u64),
    Text(String),
    TextList(Vec<String>),
}

/// A detail value with its strings taken as character sequences.
pub enum DetailValueView {
    Number(u64),
    Text(Seq<char>),
    TextList(Seq<Seq<char>>),
}

/// The view of a detail value.
pub open spec fn detail_view(v: DetailValue) -> DetailValueView {
    match v {
        DetailValue::Number(n) => DetailValueView::Number(n),
        DetailValue::Text(s) => DetailValueView::Text(s@),
        DetailValue::TextList(l) => DetailValueView::TextList(string_views(l@)),
    }
}

/// The views of named detail values, in order.
pub open spec fn details_view(d: Seq<(String, DetailValue)>) -> Seq<(Seq<char>, DetailValueView)> {
    d.map_values(|e: (String, DetailValue)| (e.0@, detail_view(e.1)))
}

/// An action that applies to an object, as reported over HTTP.
#[derive(Debug)]
pub struct ApplicableActionDto {
    pub rule_id: String,
    pub action_type: String,
    pub reason: String,
    pub details: Vec<(String, DetailValue)>,
}

/// The details reported for an action: its days and date when set, and for a transition
/// its storage class.
pub open spec fn action_details(a: LifecycleAction) -> Seq<(Seq<char>, DetailValueView)> {
    match a {
        LifecycleAction::Expiration { days, date } => days_and_date(days, date),
        LifecycleAction::Transition { days, date, storage_class } => days_and_date(days, date).push(
            ("storage_class"@, DetailValueView::Text(storage_class@.name())),
        ),
        _ => Seq::empty(),
    }
}

/// The `days` and `date` details, each when set.
pub open spec fn days_and_date(days: Option<u32>, date: Option<UtcTime>) -> Seq<(Seq<char>, DetailValueView)> {
    (match days {
        Some(d) => seq![("days"@, DetailValueView::Number(d as u64))],
        None => Seq::empty(),
    }) + (match date {
        Some(t) => seq![
            ("date"@, DetailValueView::Text(
                utc_rfc3339_text(t.spec_secs() as i64, t.spec_nanos() as u32),
            )),
        ],
        None => Seq::empty(),
    })
}

fn push_days_and_date(details: &mut Vec<(String, DetailValue)>, days: Option<u32>, date: &Option<UtcTime>)
    requires
        opt_time_wf(*date),
    ensures
        details_view(final(details)@) == details_view(old(details)@) + days_and_date(days, *date),
{
    let ghost start = details@;
    if let Some(d) = days {
        details.push((String::from_str("days"), DetailValue::Number(d as u64)));
    }
    let ghost mid = details@;
    if let Some(t) = date {
        let text = utc_rfc3339(t);
        details.push((String::from_str("date"), DetailValue::Text(text)));
    }
    proof {
        assert(details_view(mid) =~= details_view(start) + match days {
            Some(d) => seq![("days"@, DetailValueView::Number(d as u64))],
            None => Seq::<(Seq<char>, DetailValueView)>::empty(),
        });
        assert(details_view(details@) =~= details_view(mid) + match *date {
            Some(t) => seq![
                ("date"@, DetailValueView::Text(
                    utc_rfc3339_text(t.spec_secs() as i64, t.spec_nanos() as u32),
                )),
            ],
            None => Seq::<(Seq<char>, DetailValueView)>::empty(),
        });
    }
}

impl ApplicableActionDto {
    /// The report of an action: its rule, its `Debug` text, its reason and its details.
    pub fn from_action(action: &ApplicableAction) -> (r: ApplicableActionDto)
        requires
            action_wf(action.action),
        ensures
            r.rule_id@ == action.rule_id@,
            r.action_type@ == action_debug_text(action.action),
            r.reason@ == action.reason@,
            details_view(r.details@) == action_details(action.action),
    {
        let mut details: Vec<(String, DetailValue)> = Vec::new();
        match &action.action {
            LifecycleAction::Expiration { days, date } => {
                push_days_and_date(&mut details, *days, date);
            },
            LifecycleAction::Transition { days, date, storage_class } => {
                push_days_and_date(&mut details, *days, date);
                let ghost before = details@;
                details.push(
                    (
                        String::from_str("storage_class"),
                        DetailValue::Text(String::from_str(storage_class.as_str())),
                    ),
                );
                proof {
                    assert(details_view(details@) =~= details_view(before).push(
                        ("storage_class"@, DetailValueView::Text(storage_class@.name())),
                    ));
                }
            },
            _ => {},
        }
        proof {
            assert(details_view(Seq::<(String, DetailValue)>::empty()) =~= Seq::empty());
        }
        ApplicableActionDto {
            rule_id: action.rule_id.clone(),
            action_type: action_debug(&action.action),
            reason: action.reason.clone(),
            details,
        }
    }
}

/// The actions reported for an evaluation.
#[derive(Debug)]
pub struct LifecycleEvaluationResponseDto {
    pub actions_to_apply: Vec<ApplicableActionDto>,
}

impl LifecycleEvaluationResponseDto {
    /// The report of each action, in order.
    pub fn from_result(result: &LifecycleEvaluationResult) -> (r: LifecycleEvaluationResponseDto)
        requires
            actions_wf(result.actions_to_apply@),
        ensures
            r.actions_to_apply@.len() == result.actions_to_apply@.len(),
            forall|k: int|
                0 <= k < r.actions_to_apply@.len() ==> {
                    let a = #[trigger] result.actions_to_apply@[k];
                    let d = r.actions_to_apply@[k];
                    d.rule_id@ == a.rule_id@ && d.action_type@ == action_debug_text(a.action)
                        && d.reason@ == a.reason@ && details_view(d.details@) == action_details(
                        a.action,
                    )
                },
    {
        let mut out: Vec<ApplicableActionDto> = Vec::new();
        let mut i: usize = 0;
        while i < result.actions_to_apply.len()
            invariant
                i <= result.actions_to_apply@.len(),
                actions_wf(result.actions_to_apply@),
                out@.len() == i,
                forall|k: int|
                    0 <= k < i ==> {
                        let a = #[trigger] result.actions_to_apply@[k];
                        let d = out@[k];
                        d.rule_id@ == a.rule_id@ && d.action_type@ == action_debug_text(a.action)
                            && d.reason@ == a.reason@ && details_view(d.details@)
                            == action_details(a.action)
                    },
            decreases result.actions_to_apply@.len() - i,
        {
            out.push(ApplicableActionDto::from_action(&result.actions_to_apply[i]));
            i = i + 1;
        }
        LifecycleEvaluationResponseDto { actions_to_apply: out }
    }
}

/// The body of an error response.
#[derive(Debug)]
pub struct ErrorResponseDto {
    pub error: String,
    pub message: String,
    pub details: Option<Vec<(String, DetailValue)>>,
    pub timestamp: UtcTime,
}

/// The details reported for a storage error.
pub open spec fn storage_error_details(e: StorageErrorView) -> Option<Seq<(Seq<char>, DetailValueView)>> {
    match e {
        StorageErrorView::ObjectNotFound { key } => Some(seq![("key"@, DetailValueView::Text(key))]),
        StorageErrorView::VersionNotFound { key, version_id } => Some(
            seq![("key"@, DetailValueView::Text(key)), ("version_id"@, DetailValueView::Text(version_id))],
        ),
        StorageErrorView::QuotaExceeded { used, limit } => Some(
            seq![("used"@, DetailValueView::Number(used)), ("limit"@, DetailValueView::Number(limit))],
        ),
        _ => None,
    }
}

/// The details reported for a lifecycle error.
pub open spec fn lifecycle_error_details(e: LifecycleErrorView) -> Option<Seq<(Seq<char>, DetailValueView)>> {
    match e {
        LifecycleErrorView::ValidationFailed { errors } => Some(
            seq![("validation_errors"@, DetailValueView::TextList(errors))],
        ),
        LifecycleErrorView::RuleNotFound { rule_id } => Some(seq![("rule_id"@, DetailValueView::Text(rule_id))]),
        _ => None,
    }
}

/// The views of optional details.
pub open spec fn opt_details_view(d: Option<Vec<(String, DetailValue)>>) -> Option<Seq<(Seq<char>, DetailValueView)>> {
    match d {
        Some(v) => Some(details_view(v@)),
        None => None,
    }
}

fn clone_strings(v: &Vec<String>) -> (r: Vec<String>)
    ensures
        string_views(r@) == string_views(v@),
{
    let mut r: Vec<String> = Vec::new();
    let mut i: usize = 0;
    while i < v.len()
        invariant
            i <= v@.len(),
            r@.len() == i,
            forall|k: int| 0 <= k < i ==> (#[trigger] r@[k])@ == v@[k]@,
        decreases v@.len() - i,
    {
        r.push(v[i].clone());
        i = i + 1;
    }
    assert(string_views(r@) =~= string_views(v@));
    r
}

impl ErrorResponseDto {
    /// The response for a storage error, stamped with the current time.
    pub fn from_storage_error(error: &StorageError) -> (r: ErrorResponseDto)
        ensures
            r.error@ == "StorageError"@,
            r.message@ == error@.message(),
            opt_details_view(r.details) == storage_error_details(error@),
            r.timestamp.wf(),
    {
        let details = match error {
            StorageError::ObjectNotFound { key } => {
                let mut d: Vec<(String, DetailValue)> = Vec::new();
                d.push((String::from_str("key"), DetailValue::Text(String::from_str(key.as_str()))));
                assert(details_view(d@) =~= seq![("key"@, DetailValueView::Text(key@))]);
                Some(d)
            },
            StorageError::VersionNotFound { key, version_id } => {
                let mut d: Vec<(String, DetailValue)> = Vec::new();
                d.push((String::from_str("key"), DetailValue::Text(String::from_str(key.as_str()))));
                d.push(
                    (
                        String::from_str("version_id"),
                        DetailValue::Text(String::from_str(version_id.as_str())),
                    ),
                );
                assert(details_view(d@) =~= seq![
                    ("key"@, DetailValueView::Text(key@)),
                    ("version_id"@, DetailValueView::Text(version_id@)),
                ]);
                Some(d)
            },
            StorageError::QuotaExceeded { used, limit } => {
                let mut d: Vec<(String, DetailValue)> = Vec::new();
                d.push((String::from_str("used"), DetailValue::Number(*used)));
                d.push((String::from_str("limit"), DetailValue::Number(*limit)));
                assert(details_view(d@) =~= seq![
                    ("used"@, DetailValueView::Number(*used)),
                    ("limit"@, DetailValueView::Number(*limit)),
                ]);
                Some(d)
            },
            _ => None,
        };
        ErrorResponseDto {
            error: String::from_str("StorageError"),
            message: error.message(),
            details,
            timestamp: now(),
        }
    }

    /// The response for a lifecycle error, stamped with the current time.
    pub fn from_lifecycle_error(error: &LifecycleError) -> (r: ErrorResponseDto)
        ensures
            r.error@ == "LifecycleError"@,
            r.message@ == error@.message(),
            opt_details_view(r.details) == lifecycle_error_details(error@),
            r.timestamp.wf(),
    {
        let details = match error {
            LifecycleError::ValidationFailed { errors } => {
                let mut d: Vec<(String, DetailValue)> = Vec::new();
                d.push(
                    (String::from_str("validation_errors"), DetailValue::TextList(clone_strings(errors))),
                );
                assert(details_view(d@) =~= seq![
                    ("validation_errors"@, DetailValueView::TextList(string_views(errors@))),
                ]);
                Some(d)
            },
            LifecycleError::RuleNotFound { rule_id } => {
                let mut d: Vec<(String, DetailValue)> = Vec::new();
                d.push((String::from_str("rule_id"), DetailValue::Text(rule_id.clone())));
                assert(details_view(d@) =~= seq![("rule_id"@, DetailValueView::Text(rule_id@))]);
                Some(d)
            },
            _ => None,
        };
        ErrorResponseDto {
            error: String::from_str("LifecycleError"),
            message: error.message(),
            details,
            timestamp: now(),
        }
    }

    /// A response for a malformed request.
    pub fn bad_request(message: &str) -> (r: ErrorResponseDto)
        ensures
            r.error@ == "BadRequest"@,
            r.message@ == message@,
            r.details is None,
            r.timestamp.wf(),
    {
        ErrorResponseDto {
            error: String::from_str("BadRequest"),
            message: String::from_str(message),
            details: None,
            timestamp: now(),
        }
    }

    /// A response for a failure of the server.
    pub fn internal_error(message: &str) -> (r: ErrorResponseDto)
        ensures
            r.error@ == "InternalServerError"@,
            r.message@ == message@,
            r.details is None,
            r.timestamp.wf(),
    {
        ErrorResponseDto {
            error: String::from_str("InternalServerError"),
            message: String::from_str(message),
            details: None,
            timestamp: now(),
        }
    }
}

/// A version of an object as listed over HTTP.
#[derive(Debug)]
pub struct VersionedObjectDto {
    pub key: String,
    pub version_id: String,
    pub size: u64,
    pub last_modified: UtcTime,
    pub etag: Option<String>,
    pub is_latest: bool,
}

/// A delete marker as listed over HTTP.
#[derive(Debug)]
pub struct DeleteMarkerDto {
    pub key: String,
    pub version_id: String,
    pub last_modified: UtcTime,
    pub is_latest: bool,
}

/// A listing of an object's versions as sent over HTTP.
#[derive(Debug)]
pub struct ListVersionsResponseDto {
    pub versions: Vec<VersionedObjectDto>,
    pub delete_markers: Vec<DeleteMarkerDto>,
    pub is_truncated: bool,
    pub next_key_marker: Option<String>,
    pub next_version_id_marker: Option<String>,
}

/// The body of a success response.
#[derive(Debug)]
pub struct SuccessResponseDto {
    pub message: String,
    pub timestamp: UtcTime,
}

impl SuccessResponseDto {
    /// A success response with this message, stamped with the current time.
    pub fn new(message: &str) -> (r: SuccessResponseDto)
        ensures
            r.message@ == message@,
            r.timestamp.wf(),
    {
        SuccessResponseDto { message: String::from_str(message), timestamp: now() }
    }
}

} // verus!
