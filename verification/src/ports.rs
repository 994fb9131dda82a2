use vstd::prelude::*;

use crate::time::UtcTime;
use crate::value_objects::{BucketName, ObjectKey, VersionId};

verus! {

/// Information about a stored object.
#[derive(Debug)]
pub struct ObjectInfo {
    pub key: ObjectKey,
    pub size: u64,
    pub last_modified: UtcTime,
    pub etag: Option<String>,
}

/// A part of a multipart upload.
#[derive(Debug)]
pub struct CompletedPart {
    pub part_number: u32,
    pub etag: String,
}

/// Results of applying lifecycle actions to an object.
#[derive(Debug)]
pub struct LifecycleActionResults {
    pub object_key: ObjectKey,
    pub applied_actions: Vec<AppliedAction>,
    pub failed_actions: Vec<FailedAction>,
}

/// An action that was applied.
#[derive(Debug)]
pub struct AppliedAction {
    pub rule_id: String,
    pub action_type: String,
    pub timestamp: UtcTime,
}

/// An action that failed.
#[derive(Debug)]
pub struct FailedAction {
    pub rule_id: String,
    pub action_type: String,
    pub error: String,
}

/// Results of processing the lifecycle of a whole bucket.
#[derive(Debug)]
pub struct BucketLifecycleResults {
    pub bucket: BucketName,
    pub objects_processed: usize,
    pub objects_affected: usize,
    pub actions_applied: usize,
    pub errors: Vec<ProcessingError>,
    /// Time the processing took, in whole seconds.
    pub duration_secs: u64,
}

/// An error met while processing an object.
#[derive(Debug)]
pub struct ProcessingError {
    pub object_key: ObjectKey,
    pub rule_id: String,
    pub error: String,
}

/// The outcome of validating a lifecycle configuration.
#[derive(Debug)]
pub struct ValidationResult {
    pub is_valid: bool,
    pub errors: Vec<ValidationError>,
    pub warnings: Vec<ValidationWarning>,
}

/// An error found while validating a lifecycle configuration.
#[derive(Debug)]
pub struct ValidationError {
    pub rule_id: Option<String>,
    pub field: String,
    pub message: String,
}

/// A warning found while validating a lifecycle configuration.
#[derive(Debug)]
pub struct ValidationWarning {
    pub rule_id: Option<String>,
    pub message: String,
}

/// Status of lifecycle processing of a bucket.
#[derive(Debug)]
pub struct ProcessingStatus {
    pub is_running: bool,
    pub last_run: Option<UtcTime>,
    pub next_scheduled_run: Option<UtcTime>,
    pub last_run_results: Option<BucketLifecycleResults>,
}

/// The result of comparing two versions of an object.
#[derive(Debug)]
pub struct VersionComparison {
    pub key: ObjectKey,
    pub version1: VersionId,
    pub version2: VersionId,
    pub size_difference: i64,
    pub metadata_changes: Vec<MetadataChange>,
    pub content_identical: bool,
}

/// A metadata field that differs between two versions.
#[derive(Debug)]
pub struct MetadataChange {
    pub field: String,
    pub old_value: Option<String>,
    pub new_value: Option<String>,
}

impl Clone for ProcessingError {
    fn clone(&self) -> (r: Self)
        ensures
            r.object_key@ == self.object_key@,
            r.rule_id@ == self.rule_id@,
            r.error@ == self.error@,
    {
        ProcessingError {
            object_key: self.object_key.clone(),
            rule_id: self.rule_id.clone(),
            error: self.error.clone(),
        }
    }
}

/// A copy of a list of processing errors.
pub fn clone_processing_errors(v: &Vec<ProcessingError>) -> (r: Vec<ProcessingError>)
    ensures
        r@.len() == v@.len(),
        forall|i: int|
            0 <= i < v@.len() ==> (#[trigger] r@[i]).object_key@ == v@[i].object_key@
                && r@[i].rule_id@ == v@[i].rule_id@ && r@[i].error@ == v@[i].error@,
{
    let mut r: Vec<ProcessingError> = Vec::new();
    let mut i: usize = 0;
    while i < v.len()
        invariant
            i <= v@.len(),
            r@.len() == i,
            forall|k: int|
                0 <= k < i ==> (#[trigger] r@[k]).object_key@ == v@[k].object_key@
                    && r@[k].rule_id@ == v@[k].rule_id@ && r@[k].error@ == v@[k].error@,
        decreases v@.len() - i,
    {
        r.push(v[i].clone());
        i = i + 1;
    }
    r
}

impl BucketLifecycleResults {
    /// The two results report the same: bucket, counts, duration and errors.
    pub open spec fn same_as(self, other: BucketLifecycleResults) -> bool {
        &&& self.bucket@ == other.bucket@
        &&& self.objects_processed == other.objects_processed
        &&& self.objects_affected == other.objects_affected
        &&& self.actions_applied == other.actions_applied
        &&& self.duration_secs == other.duration_secs
        &&& self.errors@.len() == other.errors@.len()
        &&& forall|i: int|
            0 <= i < self.errors@.len() ==> (#[trigger] self.errors@[i]).object_key@
                == other.errors@[i].object_key@ && self.errors@[i].rule_id@ == other.errors@[i].rule_id@
                && self.errors@[i].error@ == other.errors@[i].error@
    }
}

/// Both hold no results, or both hold results that report the same.
pub open spec fn same_results(a: Option<BucketLifecycleResults>, b: Option<BucketLifecycleResults>) -> bool {
    match (a, b) {
        (Some(x), Some(y)) => x.same_as(y),
        (None, None) => true,
        _ => false,
    }
}

impl Clone for BucketLifecycleResults {
    fn clone(&self) -> (r: Self)
        ensures
            r.same_as(*self),
    {
        BucketLifecycleResults {
            bucket: self.bucket.clone(),
            objects_processed: self.objects_processed,
            objects_affected: self.objects_affected,
            actions_applied: self.actions_applied,
            errors: clone_processing_errors(&self.errors),
            duration_secs: self.duration_secs,
        }
    }
}

impl Clone for ProcessingStatus {
    fn clone(&self) -> (r: Self)
        ensures
            r.is_running == self.is_running,
            r.last_run == self.last_run,
            r.next_scheduled_run == self.next_scheduled_run,
            same_results(r.last_run_results, self.last_run_results),
    {
        ProcessingStatus {
            is_running: self.is_running,
            last_run: self.last_run,
            next_scheduled_run: self.next_scheduled_run,
            last_run_results: match &self.last_run_results {
                Some(x) => Some(x.clone()),
                None => None,
            },
        }
    }
}

} // verus!
