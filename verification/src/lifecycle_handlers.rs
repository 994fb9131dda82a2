use vstd::prelude::*;

use crate::dto::{
    action_details, details_view, first_bad_status, lifecycle_error_details, opt_details_view, opt_tags_wf, status_named,
    ErrorResponseDto, EvaluateLifecycleDto, LifecycleConfigurationDto,
    LifecycleEvaluationResponseDto, LifecycleRuleDto, SuccessResponseDto,
};
use crate::errors::{LifecycleError, ValidationErrorView};
use crate::evaluation::{action_debug_text, action_models, request_facts, ObjectFacts};
use crate::lifecycle::{
    opt_time_wf, ApplicableAction, EvaluateLifecycleRequest, LifecycleConfiguration, LifecycleRule, RuleStatus,
};
use crate::lifecycle_service::{
    bucket_processed, configuration_set, evaluation_outcome, rule_added, rule_removed,
    rule_status_set, LifecycleServiceImpl,
};
use crate::ports::BucketLifecycleResults;
use crate::tags::TagMap;
use crate::text::concat_str;
use crate::time::now;
use crate::value_objects::{bucket_name_error, object_key_error, BucketName, ObjectKey};

verus! {

/// The response reports this lifecycle error with its status code.
pub open spec fn reports_lifecycle_error(code: u16, body: ErrorResponseDto, e: LifecycleError) -> bool {
    &&& code == e.spec_status_code()
    &&& body.error@ == "LifecycleError"@
    &&& body.message@ == e@.message()
    &&& opt_details_view(body.details) == lifecycle_error_details(e@)
}

/// The response reports some lifecycle error with its status code.
pub open spec fn is_lifecycle_failure(code: u16, body: ErrorResponseDto) -> bool {
    exists|e: LifecycleError| #[trigger] reports_lifecycle_error(code, body, e)
}

/// The response is a bad request with this message.
pub open spec fn is_bad_request(code: u16, body: ErrorResponseDto, message: Seq<char>) -> bool {
    code == 400 && body.error@ == "BadRequest"@ && body.message@ == message && body.details is None
}

/// The response for a failed lifecycle operation: the error's status code and its report.
pub fn lifecycle_failure(e: LifecycleError) -> (r: (u16, ErrorResponseDto))
    ensures
        reports_lifecycle_error(r.0, r.1, e),
        is_lifecycle_failure(r.0, r.1),
{
    let body = ErrorResponseDto::from_lifecycle_error(&e);
    let code = e.status_code();
    assert(reports_lifecycle_error(code, body, e));
    (code, body)
}

/// The response answers this outcome of a lifecycle operation: the success code and
/// message, or the report of the error.
pub open spec fn answers_with(
    r: Result<(u16, SuccessResponseDto), (u16, ErrorResponseDto)>,
    outcome: Result<(), LifecycleError>,
    code: u16,
    message: Seq<char>,
) -> bool {
    match outcome {
        Ok(_) => r matches Ok((c, b)) && c == code && b.message@ == message,
        Err(e) => r matches Err((c, b)) && reports_lifecycle_error(c, b, e),
    }
}

/// The bucket named in the path, or the bad request that rejects the name.
fn path_bucket(bucket_name: String) -> (r: Result<BucketName, (u16, ErrorResponseDto)>)
    ensures
        match bucket_name_error(bucket_name@) {
            Some(e) => r matches Err((c, b)) && is_bad_request(c, b, "Invalid bucket name: "@ + e.message()),
            None => r matches Ok(b) && b@ == bucket_name@,
        },
{
    match BucketName::new(bucket_name) {
        Ok(b) => Ok(b),
        Err(e) => {
            let m = e.message();
            let text = concat_str("Invalid bucket name: ", m.as_str());
            Err((400, ErrorResponseDto::bad_request(text.as_str())))
        },
    }
}

/// Sets the bucket's lifecycle configuration from its description.
pub fn set_lifecycle_configuration(
    service: &mut LifecycleServiceImpl,
    bucket_name: String,
    config_dto: LifecycleConfigurationDto,
) -> (r: Result<(u16, SuccessResponseDto), (u16, ErrorResponseDto)>)
    requires
        old(service).wf(),
        config_dto.wf(),
    ensures
        final(service).wf(),
        final(service).store_contents() == old(service).store_contents(),
        final(service).statuses() == old(service).statuses(),
        bucket_name_error(bucket_name@) matches Some(e) ==> (r matches Err((c, b))
            && is_bad_request(c, b, "Invalid bucket name: "@ + e.message())
            && final(service).configs() == old(service).configs()),
        bucket_name_error(bucket_name@) is None ==> (bucket_name_error(config_dto.bucket@) matches Some(e)
            ==> (r matches Err((c, b)) && is_bad_request(
            c,
            b,
            "Invalid configuration: "@ + e.message(),
        ) && final(service).configs() == old(service).configs())),
        r matches Ok((c, b)) ==> c == 200 && b.message@ == "Lifecycle configuration set successfully"@
            && final(service).configs().dom() == old(service).configs().dom().insert(bucket_name@),
        r matches Err((c, b)) ==> (is_lifecycle_failure(c, b) || c == 400)
            && final(service).configs() == old(service).configs(),
        bucket_name_error(bucket_name@) is None && bucket_name_error(config_dto.bucket@) is None ==> match first_bad_status(
            config_dto.rules@,
        ) {
            Some(i) => r matches Err((c, b)) && is_bad_request(
                c,
                b,
                "Invalid configuration: "@ + (ValidationErrorView::InvalidField {
                    field: "status"@,
                    value: config_dto.rules@[i].status@,
                    expected: "Enabled or Disabled"@,
                }).message(),
            ),
            None => exists|config: LifecycleConfiguration, o: Result<(), LifecycleError>|
                config_dto.describes(config) && #[trigger] configuration_set(
                    old(service).configs(),
                    final(service).configs(),
                    bucket_name@,
                    config,
                    o,
                ) && answers_with(r, o, 200, "Lifecycle configuration set successfully"@),
        },
{
    let bucket = match path_bucket(bucket_name) {
        Ok(b) => b,
        Err(e) => { return Err(e); },
    };
    let config = match config_dto.into_configuration() {
        Ok(c) => c,
        Err(e) => {
            let m = e.message();
            let text = concat_str("Invalid configuration: ", m.as_str());
            return Err((400, ErrorResponseDto::bad_request(text.as_str())));
        },
    };
    let outcome = service.set_lifecycle_configuration(&bucket, config);
    match outcome {
        Ok(()) => Ok((200, SuccessResponseDto::new("Lifecycle configuration set successfully"))),
        Err(e) => Err(lifecycle_failure(e)),
    }
}

/// The bucket's lifecycle configuration, described; 404 when there is none.
pub fn get_lifecycle_configuration(service: &LifecycleServiceImpl, bucket_name: String) -> (r: Result<
    LifecycleConfigurationDto,
    (u16, ErrorResponseDto),
>)
    requires
        service.wf(),
    ensures
        bucket_name_error(bucket_name@) matches Some(e) ==> (r matches Err((c, b))
            && is_bad_request(c, b, "Invalid bucket name: "@ + e.message())),
        bucket_name_error(bucket_name@) is None ==> if service.configs().dom().contains(bucket_name@) {
            r matches Ok(d) && d.bucket@ == service.configs()[bucket_name@].bucket@
                && d.rules@.len() == service.configs()[bucket_name@].rules@.len()
                && forall|k: int| 0 <= k < d.rules@.len() ==> (#[trigger] d.rules@[k]).id@
                    == service.configs()[bucket_name@].rules@[k].id@
        } else {
            r matches Err((c, b)) && c == 404 && b.error@ == "BadRequest"@
                && b.message@ == "Lifecycle configuration not found"@
        },
{
    let bucket = match path_bucket(bucket_name) {
        Ok(b) => b,
        Err(e) => { return Err(e); },
    };
    match service.get_lifecycle_configuration(&bucket) {
        Ok(Some(config)) => Ok(LifecycleConfigurationDto::from_configuration(&config)),
        Ok(None) => {
            let body = ErrorResponseDto::bad_request("Lifecycle configuration not found");
            Err((404, body))
        },
        Err(e) => Err(lifecycle_failure(e)),
    }
}

/// Removes the bucket's lifecycle configuration.
pub fn delete_lifecycle_configuration(service: &mut LifecycleServiceImpl, bucket_name: String) -> (r:
    Result<(u16, SuccessResponseDto), (u16, ErrorResponseDto)>)
    requires
        old(service).wf(),
    ensures
        final(service).wf(),
        final(service).store_contents() == old(service).store_contents(),
        final(service).statuses() == old(service).statuses(),
        bucket_name_error(bucket_name@) matches Some(e) ==> (r matches Err((c, b))
            && is_bad_request(c, b, "Invalid bucket name: "@ + e.message())
            && final(service).configs() == old(service).configs()),
        bucket_name_error(bucket_name@) is None ==> (r matches Ok((c, b)) && c == 200
            && b.message@ == "Lifecycle configuration deleted successfully"@
            && final(service).configs() == old(service).configs().remove(bucket_name@)),
{
    let bucket = match path_bucket(bucket_name) {
        Ok(b) => b,
        Err(e) => { return Err(e); },
    };
    match service.delete_lifecycle_configuration(&bucket) {
        Ok(()) => Ok((200, SuccessResponseDto::new("Lifecycle configuration deleted successfully"))),
        Err(e) => Err(lifecycle_failure(e)),
    }
}

impl EvaluateLifecycleDto {
    /// The tags and the creation time, when given, are well formed.
    pub open spec fn wf(self) -> bool {
        opt_tags_wf(self.object_tags) && opt_time_wf(self.object_created_at)
    }

    /// What evaluation reads of the object described, with `now` standing for a missing
    /// creation time; a missing tag map is empty, a missing flag says the object is a
    /// current version and no delete marker.
    pub open spec fn facts_at(self, now: int) -> ObjectFacts {
        ObjectFacts {
            key: self.key@,
            tags: match self.object_tags {
                Some(t) => t@,
                None => Map::empty(),
            },
            created: match self.object_created_at {
                Some(t) => t@,
                None => now,
            },
            is_delete_marker: match self.is_delete_marker {
                Some(b) => b,
                None => false,
            },
            is_current_version: match self.is_current_version {
                Some(b) => b,
                None => true,
            },
        }
    }
}

/// The response reports these actions, in order: each one's rule id, its type as `{:?}`
/// writes the action, its reason and its details.
pub open spec fn reports_actions(d: LifecycleEvaluationResponseDto, acts: Seq<ApplicableAction>) -> bool {
    &&& d.actions_to_apply@.len() == acts.len()
    &&& forall|k: int|
        0 <= k < acts.len() ==> {
            let a = #[trigger] acts[k];
            let x = d.actions_to_apply@[k];
            &&& x.rule_id@ == a.rule_id@
            &&& x.action_type@ == action_debug_text(a.action)
            &&& x.reason@ == a.reason@
            &&& details_view(x.details@) == action_details(a.action)
        }
}

/// Evaluates the lifecycle rules for the object described, at the current time.
pub fn evaluate_object_lifecycle(service: &LifecycleServiceImpl, request_dto: EvaluateLifecycleDto) -> (r:
    Result<LifecycleEvaluationResponseDto, (u16, ErrorResponseDto)>)
    requires
        service.wf(),
        request_dto.wf(),
    ensures
        object_key_error(request_dto.key@) matches Some(e) ==> (r matches Err((c, b))
            && is_bad_request(c, b, "Invalid object key: "@ + e.message())),
        object_key_error(request_dto.key@) is None ==> exists|t: int|
            match #[trigger] evaluation_outcome(
                service.configs(),
                service.configured_names(),
                request_dto.facts_at(t),
                t,
            ) {
                Ok(actions) => exists|acts: Seq<ApplicableAction>|
                    #[trigger] action_models(acts) == actions && (r matches Ok(d) && reports_actions(d, acts)),
                Err(e) => r matches Err((c, b)) && c == e.status() && b.error@ == "LifecycleError"@
                    && b.message@ == e.message(),
            },
{
    let key = match ObjectKey::new(request_dto.key) {
        Ok(k) => k,
        Err(e) => {
            let m = e.message();
            let text = concat_str("Invalid object key: ", m.as_str());
            return Err((400, ErrorResponseDto::bad_request(text.as_str())));
        },
    };
    let t = now();
    let request = EvaluateLifecycleRequest {
        key,
        object_created_at: match request_dto.object_created_at {
            Some(c) => c,
            None => t,
        },
        object_tags: match request_dto.object_tags {
            Some(tags) => tags,
            None => TagMap::new(),
        },
        is_delete_marker: match request_dto.is_delete_marker {
            Some(b) => b,
            None => false,
        },
        is_current_version: match request_dto.is_current_version {
            Some(b) => b,
            None => true,
        },
    };
    proof {
        assert(request_facts(request) == request_dto.facts_at(t@));
    }
    match service.evaluate_object_lifecycle_at(&request, &t) {
        Ok(result) => {
            let d = LifecycleEvaluationResponseDto::from_result(&result);
            assert(reports_actions(d, result.actions_to_apply@));
            Ok(d)
        },
        Err(e) => {
            let (c, b) = lifecycle_failure(e);
            Err((c, b))
        },
    }
}

/// Adds a rule, described, to the bucket's configuration.
pub fn add_lifecycle_rule(service: &mut LifecycleServiceImpl, bucket_name: String, rule_dto: LifecycleRuleDto) -> (r:
    Result<(u16, SuccessResponseDto), (u16, ErrorResponseDto)>)
    requires
        old(service).wf(),
        rule_dto.wf(),
    ensures
        final(service).wf(),
        final(service).store_contents() == old(service).store_contents(),
        final(service).statuses() == old(service).statuses(),
        bucket_name_error(bucket_name@) matches Some(e) ==> (r matches Err((c, b))
            && is_bad_request(c, b, "Invalid bucket name: "@ + e.message())
            && final(service).configs() == old(service).configs()),
        r matches Ok((c, b)) ==> c == 201 && b.message@ == "Lifecycle rule added successfully"@,
        r matches Err((c, b)) ==> (is_lifecycle_failure(c, b) || c == 400)
            && final(service).configs() == old(service).configs(),
        bucket_name_error(bucket_name@) is None ==> match status_named(rule_dto.status@) {
            None => r matches Err((c, b)) && is_bad_request(
                c,
                b,
                "Invalid rule: "@ + (ValidationErrorView::InvalidField {
                    field: "status"@,
                    value: rule_dto.status@,
                    expected: "Enabled or Disabled"@,
                }).message(),
            ),
            Some(st) => exists|rule: LifecycleRule, o: Result<(), LifecycleError>|
                rule_dto.describes(rule, st) && #[trigger] rule_added(
                    old(service).configs(),
                    final(service).configs(),
                    bucket_name@,
                    rule,
                    o,
                ) && answers_with(r, o, 201, "Lifecycle rule added successfully"@),
        },
{
    let bucket = match path_bucket(bucket_name) {
        Ok(b) => b,
        Err(e) => { return Err(e); },
    };
    let rule = match rule_dto.into_rule() {
        Ok(r) => r,
        Err(e) => {
            let m = e.message();
            let text = concat_str("Invalid rule: ", m.as_str());
            return Err((400, ErrorResponseDto::bad_request(text.as_str())));
        },
    };
    let outcome = service.add_rule(&bucket, rule);
    match outcome {
        Ok(()) => Ok((201, SuccessResponseDto::new("Lifecycle rule added successfully"))),
        Err(e) => Err(lifecycle_failure(e)),
    }
}

/// Removes a rule from the bucket's configuration.
pub fn remove_lifecycle_rule(service: &mut LifecycleServiceImpl, bucket_name: String, rule_id: String) -> (r:
    Result<(u16, SuccessResponseDto), (u16, ErrorResponseDto)>)
    requires
        old(service).wf(),
    ensures
        final(service).wf(),
        final(service).store_contents() == old(service).store_contents(),
        final(service).statuses() == old(service).statuses(),
        bucket_name_error(bucket_name@) matches Some(e) ==> (r matches Err((c, b))
            && is_bad_request(c, b, "Invalid bucket name: "@ + e.message())
            && final(service).configs() == old(service).configs()),
        r matches Ok((c, b)) ==> c == 200 && b.message@ == "Lifecycle rule removed successfully"@,
        r matches Err((c, b)) ==> (is_lifecycle_failure(c, b) || c == 400)
            && final(service).configs() == old(service).configs(),
        bucket_name_error(bucket_name@) is None ==> exists|o: Result<(), LifecycleError>|
            #[trigger] rule_removed(old(service).configs(), final(service).configs(), bucket_name@, rule_id@, o)
                && answers_with(r, o, 200, "Lifecycle rule removed successfully"@),
{
    let bucket = match path_bucket(bucket_name) {
        Ok(b) => b,
        Err(e) => { return Err(e); },
    };
    let outcome = service.remove_rule(&bucket, rule_id.as_str());
    match outcome {
        Ok(()) => Ok((200, SuccessResponseDto::new("Lifecycle rule removed successfully"))),
        Err(e) => Err(lifecycle_failure(e)),
    }
}

/// Enables a rule of the bucket's configuration.
pub fn enable_lifecycle_rule(service: &mut LifecycleServiceImpl, bucket_name: String, rule_id: String) -> (r:
    Result<(u16, SuccessResponseDto), (u16, ErrorResponseDto)>)
    requires
        old(service).wf(),
    ensures
        final(service).wf(),
        final(service).store_contents() == old(service).store_contents(),
        bucket_name_error(bucket_name@) matches Some(e) ==> (r matches Err((c, b))
            && is_bad_request(c, b, "Invalid bucket name: "@ + e.message())),
        (bucket_name_error(bucket_name@) is None && !old(service).configs().dom().contains(bucket_name@))
            ==> (r matches Err((c, b)) && c == 404 && is_lifecycle_failure(c, b)),
        r matches Ok((c, b)) ==> c == 200 && b.message@ == "Lifecycle rule enabled successfully"@,
        r matches Err((c, b)) ==> is_lifecycle_failure(c, b) || c == 400,
        bucket_name_error(bucket_name@) is None ==> final(service).statuses() == old(service).statuses()
            && exists|o: Result<(), LifecycleError>|
            #[trigger] rule_status_set(
                old(service).configs(),
                final(service).configs(),
                bucket_name@,
                rule_id@,
                RuleStatus::Enabled,
                o,
            ) && answers_with(r, o, 200, "Lifecycle rule enabled successfully"@),
{
    let bucket = match path_bucket(bucket_name) {
        Ok(b) => b,
        Err(e) => { return Err(e); },
    };
    let outcome = service.enable_rule(&bucket, rule_id.as_str());
    match outcome {
        Ok(()) => Ok((200, SuccessResponseDto::new("Lifecycle rule enabled successfully"))),
        Err(e) => Err(lifecycle_failure(e)),
    }
}

/// Disables a rule of the bucket's configuration.
pub fn disable_lifecycle_rule(service: &mut LifecycleServiceImpl, bucket_name: String, rule_id: String) -> (r:
    Result<(u16, SuccessResponseDto), (u16, ErrorResponseDto)>)
    requires
        old(service).wf(),
    ensures
        final(service).wf(),
        final(service).store_contents() == old(service).store_contents(),
        bucket_name_error(bucket_name@) matches Some(e) ==> (r matches Err((c, b))
            && is_bad_request(c, b, "Invalid bucket name: "@ + e.message())),
        (bucket_name_error(bucket_name@) is None && !old(service).configs().dom().contains(bucket_name@))
            ==> (r matches Err((c, b)) && c == 404 && is_lifecycle_failure(c, b)),
        r matches Ok((c, b)) ==> c == 200 && b.message@ == "Lifecycle rule disabled successfully"@,
        r matches Err((c, b)) ==> is_lifecycle_failure(c, b) || c == 400,
        bucket_name_error(bucket_name@) is None ==> final(service).statuses() == old(service).statuses()
            && exists|o: Result<(), LifecycleError>|
            #[trigger] rule_status_set(
                old(service).configs(),
                final(service).configs(),
                bucket_name@,
                rule_id@,
                RuleStatus::Disabled,
                o,
            ) && answers_with(r, o, 200, "Lifecycle rule disabled successfully"@),
{
    let bucket = match path_bucket(bucket_name) {
        Ok(b) => b,
        Err(e) => { return Err(e); },
    };
    let outcome = service.disable_rule(&bucket, rule_id.as_str());
    match outcome {
        Ok(()) => Ok((200, SuccessResponseDto::new("Lifecycle rule disabled successfully"))),
        Err(e) => Err(lifecycle_failure(e)),
    }
}

/// Applies the bucket's lifecycle rules to its objects now and reports the results.
pub fn process_bucket_lifecycle(service: &mut LifecycleServiceImpl, bucket_name: String) -> (r: Result<
    BucketLifecycleResults,
    (u16, ErrorResponseDto),
>)
    requires
        old(service).wf(),
    ensures
        final(service).wf(),
        match bucket_name_error(bucket_name@) {
            Some(e) => (r matches Err((c, b)) && is_bad_request(c, b, "Invalid bucket name: "@ + e.message()))
                && *final(service) == *old(service),
            None => r matches Ok(res) && bucket_processed(*old(service), *final(service), bucket_name@, res),
        },
{
    let bucket = match path_bucket(bucket_name) {
        Ok(b) => b,
        Err(e) => {
            return Err(e);
        },
    };
    match service.process_bucket_lifecycle(&bucket) {
        Ok(res) => Ok(res),
        Err(e) => Err(lifecycle_failure(e)),
    }
}

} // verus!
