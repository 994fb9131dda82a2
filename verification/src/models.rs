use vstd::prelude::*;

use crate::filter::opt_view;
use crate::tags::TagMap;
use crate::time::UtcTime;
use crate::value_objects::{ObjectKey, VersionId};

verus! {

/// Metadata stored for an object version.
#[derive(Debug)]
pub struct ObjectMetadata {
    pub content_type: Option<String>,
    pub content_length: u64,
    pub etag: Option<String>,
    pub last_modified: UtcTime,
    pub custom_metadata: TagMap,
}

/// A copy of an optional string.
pub fn clone_opt_string(s: &Option<String>) -> (r: Option<String>)
    ensures
        opt_view(r) == opt_view(*s),
{
    match s {
        Some(x) => Some(x.clone()),
        None => None,
    }
}

impl ObjectMetadata {
    /// The custom metadata map and the time are well formed.
    pub open spec fn wf(self) -> bool {
        self.custom_metadata.wf() && self.last_modified.wf()
    }

    /// Two metadata records hold the same values.
    pub open spec fn same_as(self, other: ObjectMetadata) -> bool {
        &&& opt_view(self.content_type) == opt_view(other.content_type)
        &&& self.content_length == other.content_length
        &&& opt_view(self.etag) == opt_view(other.etag)
        &&& self.last_modified == other.last_modified
        &&& self.custom_metadata@ == other.custom_metadata@
        &&& self.custom_metadata.pairs() == other.custom_metadata.pairs()
        &&& self.custom_metadata.wf() == other.custom_metadata.wf()
    }
}

impl Clone for ObjectMetadata {
    fn clone(&self) -> (r: Self)
        ensures
            r.same_as(*self),
    {
        ObjectMetadata {
            content_type: clone_opt_string(&self.content_type),
            content_length: self.content_length,
            etag: clone_opt_string(&self.etag),
            last_modified: self.last_modified,
            custom_metadata: self.custom_metadata.clone(),
        }
    }
}

/// An object with its data and metadata.
#[derive(Debug)]
pub struct StorageObject {
    pub key: ObjectKey,
    pub data: Vec<u8>,
    pub metadata: ObjectMetadata,
}

/// A version of an object with its data and metadata.
#[derive(Debug)]
pub struct VersionedObject {
    pub key: ObjectKey,
    pub version_id: VersionId,
    pub data: Vec<u8>,
    pub metadata: ObjectMetadata,
    pub is_latest: bool,
    pub deleted: bool,
}

/// Request to create an object.
#[derive(Debug)]
pub struct CreateObjectRequest {
    pub key: ObjectKey,
    pub data: Vec<u8>,
    pub content_type: Option<String>,
    pub custom_metadata: TagMap,
}

/// Request to read an object, optionally at a version.
#[derive(Debug)]
pub struct GetObjectRequest {
    pub key: ObjectKey,
    pub version_id: Option<VersionId>,
}

/// Information about one version of an object.
#[derive(Debug)]
pub struct ObjectVersionInfo {
    pub version_id: VersionId,
    pub last_modified: UtcTime,
    pub size: u64,
    pub etag: Option<String>,
    pub is_latest: bool,
    pub deleted: bool,
}

/// The versions of an object.
#[derive(Debug)]
pub struct ObjectVersionList {
    pub key: ObjectKey,
    pub versions: Vec<ObjectVersionInfo>,
}

/// Versioning settings.
#[derive(Debug, Clone, Copy, PartialEq, Eq, Structural)]
pub struct VersioningConfiguration {
    pub enabled: bool,
    pub max_versions: Option<u32>,
}

impl Default for VersioningConfiguration {
    fn default() -> (r: Self)
        ensures
            r.enabled,
            r.max_versions is None,
    {
        VersioningConfiguration { enabled: true, max_versions: None }
    }
}

/// Metadata of a version.
#[derive(Debug)]
pub struct VersionMetadata {
    pub created_at: UtcTime,
    pub created_by: Option<String>,
    pub delete_marker: bool,
    pub tags: TagMap,
}

/// Storage classes of versions.
#[derive(Debug, PartialEq)]
pub enum StorageClass {
    Standard,
    InfrequentAccess,
    Glacier,
    DeepArchive,
    Custom(String),
}

impl StorageClass {
    /// The name of the storage class.
    pub open spec fn spec_name(self) -> Seq<char> {
        match self {
            StorageClass::Standard => "STANDARD"@,
            StorageClass::InfrequentAccess => "STANDARD_IA"@,
            StorageClass::Glacier => "GLACIER"@,
            StorageClass::DeepArchive => "DEEP_ARCHIVE"@,
            StorageClass::Custom(s) => s@,
        }
    }

    /// The name of the storage class.
    pub fn as_str(&self) -> (r: &str)
        ensures
            r@ == self.spec_name(),
    {
        match self {
            StorageClass::Standard => "STANDARD",
            StorageClass::InfrequentAccess => "STANDARD_IA",
            StorageClass::Glacier => "GLACIER",
            StorageClass::DeepArchive => "DEEP_ARCHIVE",
            StorageClass::Custom(s) => s.as_str(),
        }
    }
}

/// A move of a version to another storage class.
#[derive(Debug)]
pub struct VersionTransition {
    pub version_id: VersionId,
    pub transition_date: UtcTime,
    pub storage_class: StorageClass,
}

/// Retention of a version.
#[derive(Debug)]
pub struct VersionRetentionPolicy {
    pub mode: RetentionMode,
    pub retain_until: Option<UtcTime>,
    pub legal_hold: bool,
}

/// Retention modes.
#[derive(Debug, Clone, Copy, PartialEq, Eq, Structural)]
pub enum RetentionMode {
    Governance,
    Compliance,
}

/// Request to delete a version.
#[derive(Debug)]
pub struct DeleteVersionRequest {
    pub key: ObjectKey,
    pub version_id: VersionId,
}

/// Result of deleting a version.
#[derive(Debug)]
pub struct DeleteVersionResult {
    pub key: ObjectKey,
    pub version_id: VersionId,
    pub delete_marker_created: bool,
}

} // verus!
