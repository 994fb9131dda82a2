use vstd::prelude::*;
use vstd::string::*;

use crate::text::{
    concat_str, decimal, join_strings, join_with, push_char, push_decimal, push_str, string_views,
};
use crate::value_objects::{BucketName, ObjectKey, VersionId};

verus! {

/// Validation errors of the domain value objects (object keys, bucket names,
/// version ids) and of lifecycle rule fields.
#[derive(Debug, Clone, PartialEq)]
pub enum ValidationError {
    EmptyObjectKey,
    ObjectKeyTooLong { actual: usize, max: usize },
    InvalidObjectKeyCharacter(char),
    ObjectKeyStartsWithSlash,
    ObjectKeyContainsDoubleSlash,
    BucketNameTooShort { actual: usize, min: usize },
    BucketNameTooLong { actual: usize, max: usize },
    BucketNameInvalidStart,
    BucketNameInvalidEnd,
    BucketNameInvalidCharacter(char),
    BucketNameConsecutiveHyphens,
    BucketNameLooksLikeIpAddress,
    EmptyVersionId,
    VersionIdTooLong { actual: usize, max: usize },
    InvalidVersionIdCharacter(char),
    DuplicateRuleId(String),
    RuleIdTooLong(String),
    NoActionsInRule(String),
    InvalidField { field: String, value: String, expected: String },
}

/// A plain model of [`ValidationError`], with strings taken by their characters.
pub enum ValidationErrorView {
    EmptyObjectKey,
    ObjectKeyTooLong { actual: usize, max: usize },
    InvalidObjectKeyCharacter(char),
    ObjectKeyStartsWithSlash,
    ObjectKeyContainsDoubleSlash,
    BucketNameTooShort { actual: usize, min: usize },
    BucketNameTooLong { actual: usize, max: usize },
    BucketNameInvalidStart,
    BucketNameInvalidEnd,
    BucketNameInvalidCharacter(char),
    BucketNameConsecutiveHyphens,
    BucketNameLooksLikeIpAddress,
    EmptyVersionId,
    VersionIdTooLong { actual: usize, max: usize },
    InvalidVersionIdCharacter(char),
    DuplicateRuleId(Seq<char>),
    RuleIdTooLong(Seq<char>),
    NoActionsInRule(Seq<char>),
    InvalidField { field: Seq<char>, value: Seq<char>, expected: Seq<char> },
}

impl View for ValidationError {
    type V = ValidationErrorView;

    open spec fn view(&self) -> ValidationErrorView {
        match self {
            ValidationError::EmptyObjectKey => ValidationErrorView::EmptyObjectKey,
            ValidationError::ObjectKeyTooLong { actual, max } => ValidationErrorView::ObjectKeyTooLong {
                actual: *actual,
                max: *max,
            },
            ValidationError::InvalidObjectKeyCharacter(c) => ValidationErrorView::InvalidObjectKeyCharacter(*c),
            ValidationError::ObjectKeyStartsWithSlash => ValidationErrorView::ObjectKeyStartsWithSlash,
            ValidationError::ObjectKeyContainsDoubleSlash => ValidationErrorView::ObjectKeyContainsDoubleSlash,
            ValidationError::BucketNameTooShort { actual, min } => ValidationErrorView::BucketNameTooShort {
                actual: *actual,
                min: *min,
            },
            ValidationError::BucketNameTooLong { actual, max } => ValidationErrorView::BucketNameTooLong {
                actual: *actual,
                max: *max,
            },
            ValidationError::BucketNameInvalidStart => ValidationErrorView::BucketNameInvalidStart,
            ValidationError::BucketNameInvalidEnd => ValidationErrorView::BucketNameInvalidEnd,
            ValidationError::BucketNameInvalidCharacter(c) => ValidationErrorView::BucketNameInvalidCharacter(*c),
            ValidationError::BucketNameConsecutiveHyphens => ValidationErrorView::BucketNameConsecutiveHyphens,
            ValidationError::BucketNameLooksLikeIpAddress => ValidationErrorView::BucketNameLooksLikeIpAddress,
            ValidationError::EmptyVersionId => ValidationErrorView::EmptyVersionId,
            ValidationError::VersionIdTooLong { actual, max } => ValidationErrorView::VersionIdTooLong {
                actual: *actual,
                max: *max,
            },
            ValidationError::InvalidVersionIdCharacter(c) => ValidationErrorView::InvalidVersionIdCharacter(*c),
            ValidationError::DuplicateRuleId(s) => ValidationErrorView::DuplicateRuleId(s@),
            ValidationError::RuleIdTooLong(s) => ValidationErrorView::RuleIdTooLong(s@),
            ValidationError::NoActionsInRule(s) => ValidationErrorView::NoActionsInRule(s@),
            ValidationError::InvalidField { field, value, expected } => ValidationErrorView::InvalidField {
                field: field@,
                value: value@,
                expected: expected@,
            },
        }
    }
}

/// `'c'` with the quotes.
pub open spec fn quoted_char(c: char) -> Seq<char> {
    seq!['\'', c, '\'']
}

impl ValidationErrorView {
    /// The human-readable message of the error.
    pub open spec fn message(self) -> Seq<char> {
        match self {
            ValidationErrorView::EmptyObjectKey => "Object key cannot be empty"@,
            ValidationErrorView::ObjectKeyTooLong { actual, max } => "Object key too long: "@ + decimal(
                actual as nat,
            ) + " bytes (max: "@ + decimal(max as nat) + ")"@,
            ValidationErrorView::InvalidObjectKeyCharacter(c) => "Invalid character in object key: "@
                + quoted_char(c),
            ValidationErrorView::ObjectKeyStartsWithSlash => "Object key cannot start with '/'"@,
            ValidationErrorView::ObjectKeyContainsDoubleSlash => "Object key cannot contain '//'"@,
            ValidationErrorView::BucketNameTooShort { actual, min } => "Bucket name too short: "@
                + decimal(actual as nat) + " characters (min: "@ + decimal(min as nat) + ")"@,
            ValidationErrorView::BucketNameTooLong { actual, max } => "Bucket name too long: "@
                + decimal(actual as nat) + " characters (max: "@ + decimal(max as nat) + ")"@,
            ValidationErrorView::BucketNameInvalidStart =>
                "Bucket name must start with lowercase letter or number"@,
            ValidationErrorView::BucketNameInvalidEnd =>
                "Bucket name must end with lowercase letter or number"@,
            ValidationErrorView::BucketNameInvalidCharacter(c) => "Invalid character in bucket name: "@
                + quoted_char(c) + ". Only lowercase letters, numbers, and hyphens allowed"@,
            ValidationErrorView::BucketNameConsecutiveHyphens =>
                "Bucket name cannot contain consecutive hyphens"@,
            ValidationErrorView::BucketNameLooksLikeIpAddress =>
                "Bucket name cannot be formatted as an IP address"@,
            ValidationErrorView::EmptyVersionId => "Version ID cannot be empty"@,
            ValidationErrorView::VersionIdTooLong { actual, max } => "Version ID too long: "@ + decimal(
                actual as nat,
            ) + " characters (max: "@ + decimal(max as nat) + ")"@,
            ValidationErrorView::InvalidVersionIdCharacter(c) => "Invalid character in version ID: "@
                + quoted_char(c),
            ValidationErrorView::DuplicateRuleId(id) => "Duplicate lifecycle rule ID: "@ + id,
            ValidationErrorView::RuleIdTooLong(id) =>
                "Lifecycle rule ID too long (max 255 characters): "@ + id,
            ValidationErrorView::NoActionsInRule(id) => "Lifecycle rule '"@ + id
                + "' has no actions defined"@,
            ValidationErrorView::InvalidField { field, value, expected } => "Invalid value for field '"@
                + field + "': '"@ + value + "' (expected: "@ + expected + ")"@,
        }
    }
}

/// Appends `'c'` with the quotes.
fn push_quoted_char(s: &mut String, c: char)
    ensures
        final(s)@ == old(s)@ + quoted_char(c),
{
    push_char(s, '\'');
    push_char(s, c);
    push_char(s, '\'');
    assert(old(s)@.push('\'').push(c).push('\'') =~= old(s)@ + quoted_char(c));
}

/// `a`, the decimal of `x`, `b`, the decimal of `y`, then `c`.
fn message_with_two_numbers(a: &str, x: usize, b: &str, y: usize, c: &str) -> (r: String)
    ensures
        r@ == a@ + decimal(x as nat) + b@ + decimal(y as nat) + c@,
{
    let mut s = String::from_str(a);
    push_decimal(&mut s, x as u64);
    push_str(&mut s, b);
    push_decimal(&mut s, y as u64);
    push_str(&mut s, c);
    s
}

impl ValidationError {
    /// The human-readable message of the error (what `Display` shows).
    pub fn message(&self) -> (r: String)
        ensures
            r@ == self@.message(),
    {
        match self {
            ValidationError::EmptyObjectKey => String::from_str("Object key cannot be empty"),
            ValidationError::ObjectKeyTooLong { actual, max } => message_with_two_numbers(
                "Object key too long: ",
                *actual,
                " bytes (max: ",
                *max,
                ")",
            ),
            ValidationError::InvalidObjectKeyCharacter(c) => {
                let mut s = String::from_str("Invalid character in object key: ");
                push_quoted_char(&mut s, *c);
                s
            },
            ValidationError::ObjectKeyStartsWithSlash => String::from_str(
                "Object key cannot start with '/'",
            ),
            ValidationError::ObjectKeyContainsDoubleSlash => String::from_str(
                "Object key cannot contain '//'",
            ),
            ValidationError::BucketNameTooShort { actual, min } => message_with_two_numbers(
                "Bucket name too short: ",
                *actual,
                " characters (min: ",
                *min,
                ")",
            ),
            ValidationError::BucketNameTooLong { actual, max } => message_with_two_numbers(
                "Bucket name too long: ",
                *actual,
                " characters (max: ",
                *max,
                ")",
            ),
            ValidationError::BucketNameInvalidStart => String::from_str(
                "Bucket name must start with lowercase letter or number",
            ),
            ValidationError::BucketNameInvalidEnd => String::from_str(
                "Bucket name must end with lowercase letter or number",
            ),
            ValidationError::BucketNameInvalidCharacter(c) => {
                let mut s = String::from_str("Invalid character in bucket name: ");
                push_quoted_char(&mut s, *c);
                push_str(&mut s, ". Only lowercase letters, numbers, and hyphens allowed");
                s
            },
            ValidationError::BucketNameConsecutiveHyphens => String::from_str(
                "Bucket name cannot contain consecutive hyphens",
            ),
            ValidationError::BucketNameLooksLikeIpAddress => String::from_str(
                "Bucket name cannot be formatted as an IP address",
            ),
            ValidationError::EmptyVersionId => String::from_str("Version ID cannot be empty"),
            ValidationError::VersionIdTooLong { actual, max } => message_with_two_numbers(
                "Version ID too long: ",
                *actual,
                " characters (max: ",
                *max,
                ")",
            ),
            ValidationError::InvalidVersionIdCharacter(c) => {
                let mut s = String::from_str("Invalid character in version ID: ");
                push_quoted_char(&mut s, *c);
                s
            },
            ValidationError::DuplicateRuleId(id) => concat_str(
                "Duplicate lifecycle rule ID: ",
                id.as_str(),
            ),
            ValidationError::RuleIdTooLong(id) => concat_str(
                "Lifecycle rule ID too long (max 255 characters): ",
                id.as_str(),
            ),
            ValidationError::NoActionsInRule(id) => {
                let mut s = concat_str("Lifecycle rule '", id.as_str());
                push_str(&mut s, "' has no actions defined");
                s
            },
            ValidationError::InvalidField { field, value, expected } => {
                let mut s = concat_str("Invalid value for field '", field.as_str());
                push_str(&mut s, "': '");
                push_str(&mut s, value.as_str());
                push_str(&mut s, "' (expected: ");
                push_str(&mut s, expected.as_str());
                push_str(&mut s, ")");
                s
            },
        }
    }
}

// ---------------------------------------------------------------------------
// Storage errors
// ---------------------------------------------------------------------------

/// What `{:?}` writes for a string (std's `Debug` for `str`: the text in double quotes,
/// with escapes).
pub uninterp spec fn str_debug(s: Seq<char>) -> Seq<char>;

/// `format!("{:?}", s)` on a string slice.
#[verifier::external_body]
pub(crate) fn debug_str(s: &str) -> (r: String)
    ensures
        r@ == str_debug(s@),
{
    format!("{:?}", s)
}

/// What `{:?}` writes for an optional version id: `None`, or `Some(VersionId(..))` around
/// the debug form of the id's string.
pub open spec fn optional_version_debug(v: Option<Seq<char>>) -> Seq<char> {
    match v {
        None => "None"@,
        Some(id) => "Some(VersionId("@ + str_debug(id) + "))"@,
    }
}

/// Errors of storage operations.
#[derive(Debug, Clone)]
pub enum StorageError {
    ObjectNotFound { key: ObjectKey },
    VersionNotFound { key: ObjectKey, version_id: VersionId },
    VersionConflict {
        key: ObjectKey,
        expected_version: Option<VersionId>,
        actual_version: Option<VersionId>,
    },
    QuotaExceeded { used: u64, limit: u64 },
    InvalidObjectSize { size: u64, min: Option<u64>, max: Option<u64> },
    AccessDenied { key: ObjectKey, operation: String },
    ObjectAlreadyExists { key: ObjectKey },
    InvalidStorageClass { class: String },
    OperationNotSupported { operation: String, reason: String },
    ValidationError { message: String },
    UnsupportedOperation { operation: String, reason: String },
    InfrastructureError { message: String, source: Option<String> },
    InternalError { message: String },
    StorageBackendError { message: String },
}

/// A plain model of [`StorageError`].
pub enum StorageErrorView {
    ObjectNotFound { key: Seq<char> },
    VersionNotFound { key: Seq<char>, version_id: Seq<char> },
    VersionConflict {
        key: Seq<char>,
        expected_version: Option<Seq<char>>,
        actual_version: Option<Seq<char>>,
    },
    QuotaExceeded { used: u64, limit: u64 },
    InvalidObjectSize { size: u64, min: Option<u64>, max: Option<u64> },
    AccessDenied { key: Seq<char>, operation: Seq<char> },
    ObjectAlreadyExists { key: Seq<char> },
    InvalidStorageClass { class: Seq<char> },
    OperationNotSupported { operation: Seq<char>, reason: Seq<char> },
    ValidationError { message: Seq<char> },
    UnsupportedOperation { operation: Seq<char>, reason: Seq<char> },
    InfrastructureError { message: Seq<char>, source: Option<Seq<char>> },
    InternalError { message: Seq<char> },
    StorageBackendError { message: Seq<char> },
}

/// The view of an optional version id.
pub open spec fn optional_version_view(v: Option<VersionId>) -> Option<Seq<char>> {
    match v {
        Some(id) => Some(id@),
        None => None,
    }
}

/// The view of an optional string.
pub open spec fn optional_string_view(v: Option<String>) -> Option<Seq<char>> {
    match v {
        Some(s) => Some(s@),
        None => None,
    }
}

impl View for StorageError {
    type V = StorageErrorView;

    open spec fn view(&self) -> StorageErrorView {
        match self {
            StorageError::ObjectNotFound { key } => StorageErrorView::ObjectNotFound { key: key@ },
            StorageError::VersionNotFound { key, version_id } => StorageErrorView::VersionNotFound {
                key: key@,
                version_id: version_id@,
            },
            StorageError::VersionConflict { key, expected_version, actual_version } =>
                StorageErrorView::VersionConflict {
                key: key@,
                expected_version: optional_version_view(*expected_version),
                actual_version: optional_version_view(*actual_version),
            },
            StorageError::QuotaExceeded { used, limit } => StorageErrorView::QuotaExceeded {
                used: *used,
                limit: *limit,
            },
            StorageError::InvalidObjectSize { size, min, max } => StorageErrorView::InvalidObjectSize {
                size: *size,
                min: *min,
                max: *max,
            },
            StorageError::AccessDenied { key, operation } => StorageErrorView::AccessDenied {
                key: key@,
                operation: operation@,
            },
            StorageError::ObjectAlreadyExists { key } => StorageErrorView::ObjectAlreadyExists {
                key: key@,
            },
            StorageError::InvalidStorageClass { class } => StorageErrorView::InvalidStorageClass {
                class: class@,
            },
            StorageError::OperationNotSupported { operation, reason } =>
                StorageErrorView::OperationNotSupported { operation: operation@, reason: reason@ },
            StorageError::ValidationError { message } => StorageErrorView::ValidationError {
                message: message@,
            },
            StorageError::UnsupportedOperation { operation, reason } =>
                StorageErrorView::UnsupportedOperation { operation: operation@, reason: reason@ },
            StorageError::InfrastructureError { message, source } =>
                StorageErrorView::InfrastructureError {
                message: message@,
                source: optional_string_view(*source),
            },
            StorageError::InternalError { message } => StorageErrorView::InternalError {
                message: message@,
            },
            StorageError::StorageBackendError { message } => StorageErrorView::StorageBackendError {
                message: message@,
            },
        }
    }
}

/// ` (min: n)` when a bound is given, nothing otherwise.
pub open spec fn optional_bound(label: Seq<char>, b: Option<u64>) -> Seq<char> {
    match b {
        Some(n) => " ("@ + label + ": "@ + decimal(n as nat) + ")"@,
        None => Seq::<char>::empty(),
    }
}

impl StorageErrorView {
    /// The human-readable message of the error.
    pub open spec fn message(self) -> Seq<char> {
        match self {
            StorageErrorView::ObjectNotFound { key } => "Object not found: "@ + key,
            StorageErrorView::VersionNotFound { key, version_id } => "Version '"@ + version_id
                + "' not found for object: "@ + key,
            StorageErrorView::VersionConflict { key, expected_version, actual_version } =>
                "Version conflict for object '"@ + key + "': expected "@ + optional_version_debug(
                expected_version,
            ) + ", actual "@ + optional_version_debug(actual_version),
            StorageErrorView::QuotaExceeded { used, limit } => "Storage quota exceeded: "@
                + decimal(used as nat) + " bytes used of "@ + decimal(limit as nat) + " limit"@,
            StorageErrorView::InvalidObjectSize { size, min, max } => "Invalid object size: "@
                + decimal(size as nat) + " bytes"@ + optional_bound("min"@, min) + optional_bound(
                "max"@,
                max,
            ),
            StorageErrorView::AccessDenied { key, operation } => "Access denied for operation '"@
                + operation + "' on object: "@ + key,
            StorageErrorView::ObjectAlreadyExists { key } => "Object already exists: "@ + key,
            StorageErrorView::InvalidStorageClass { class } => "Invalid storage class: "@ + class,
            StorageErrorView::OperationNotSupported { operation, reason } => "Operation '"@
                + operation + "' not supported: "@ + reason,
            StorageErrorView::ValidationError { message } => "Validation error: "@ + message,
            StorageErrorView::UnsupportedOperation { operation, reason } =>
                "Unsupported operation '"@ + operation + "': "@ + reason,
            StorageErrorView::InfrastructureError { message, .. } => "Infrastructure error: "@
                + message,
            StorageErrorView::InternalError { message } => "Internal storage error: "@ + message,
            StorageErrorView::StorageBackendError { message } => "Storage backend error: "@
                + message,
        }
    }
}

/// Appends what `{:?}` writes for an optional version id.
fn push_optional_version_debug(s: &mut String, v: &Option<VersionId>)
    ensures
        final(s)@ == old(s)@ + optional_version_debug(optional_version_view(*v)),
{
    match v {
        None => push_str(s, "None"),
        Some(id) => {
            push_str(s, "Some(VersionId(");
            let d = debug_str(id.as_str());
            push_str(s, d.as_str());
            push_str(s, "))");
        },
    }
}

/// Appends ` (label: n)` when a bound is given.
fn push_optional_bound(s: &mut String, label: &str, b: Option<u64>)
    ensures
        final(s)@ == old(s)@ + optional_bound(label@, b),
{
    match b {
        Some(n) => {
            push_str(s, " (");
            push_str(s, label);
            push_str(s, ": ");
            push_decimal(s, n);
            push_str(s, ")");
        },
        None => {
            assert(old(s)@ + Seq::<char>::empty() =~= old(s)@);
        },
    }
}

/// Three string slices one after the other.
fn concat3(a: &str, b: &str, c: &str) -> (r: String)
    ensures
        r@ == a@ + b@ + c@,
{
    let mut s = concat_str(a, b);
    push_str(&mut s, c);
    s
}

/// Four string slices one after the other.
fn concat4(a: &str, b: &str, c: &str, d: &str) -> (r: String)
    ensures
        r@ == a@ + b@ + c@ + d@,
{
    let mut s = concat3(a, b, c);
    push_str(&mut s, d);
    s
}

impl StorageError {
    /// The human-readable message of the error (what `Display` shows).
    pub fn message(&self) -> (r: String)
        ensures
            r@ == self@.message(),
    {
        match self {
            StorageError::ObjectNotFound { key } => concat_str("Object not found: ", key.as_str()),
            StorageError::VersionNotFound { key, version_id } => concat4(
                "Version '",
                version_id.as_str(),
                "' not found for object: ",
                key.as_str(),
            ),
            StorageError::VersionConflict { key, expected_version, actual_version } => {
                let mut s = concat3("Version conflict for object '", key.as_str(), "': expected ");
                push_optional_version_debug(&mut s, expected_version);
                push_str(&mut s, ", actual ");
                push_optional_version_debug(&mut s, actual_version);
                s
            },
            StorageError::QuotaExceeded { used, limit } => {
                let mut s = String::from_str("Storage quota exceeded: ");
                push_decimal(&mut s, *used);
                push_str(&mut s, " bytes used of ");
                push_decimal(&mut s, *limit);
                push_str(&mut s, " limit");
                s
            },
            StorageError::InvalidObjectSize { size, min, max } => {
                let mut s = String::from_str("Invalid object size: ");
                push_decimal(&mut s, *size);
                push_str(&mut s, " bytes");
                push_optional_bound(&mut s, "min", *min);
                push_optional_bound(&mut s, "max", *max);
                s
            },
            StorageError::AccessDenied { key, operation } => concat4(
                "Access denied for operation '",
                operation.as_str(),
                "' on object: ",
                key.as_str(),
            ),
            StorageError::ObjectAlreadyExists { key } => concat_str(
                "Object already exists: ",
                key.as_str(),
            ),
            StorageError::InvalidStorageClass { class } => concat_str(
                "Invalid storage class: ",
                class.as_str(),
            ),
            StorageError::OperationNotSupported { operation, reason } => concat4(
                "Operation '",
                operation.as_str(),
                "' not supported: ",
                reason.as_str(),
            ),
            StorageError::ValidationError { message } => concat_str(
                "Validation error: ",
                message.as_str(),
            ),
            StorageError::UnsupportedOperation { operation, reason } => concat4(
                "Unsupported operation '",
                operation.as_str(),
                "': ",
                reason.as_str(),
            ),
            StorageError::InfrastructureError { message, .. } => concat_str(
                "Infrastructure error: ",
                message.as_str(),
            ),
            StorageError::InternalError { message } => concat_str(
                "Internal storage error: ",
                message.as_str(),
            ),
            StorageError::StorageBackendError { message } => concat_str(
                "Storage backend error: ",
                message.as_str(),
            ),
        }
    }
}

// ---------------------------------------------------------------------------
// Lifecycle errors
// ---------------------------------------------------------------------------

/// Errors of lifecycle management.
#[derive(Debug, Clone)]
pub enum LifecycleError {
    ConfigurationNotFound { bucket: BucketName },
    InvalidRule { rule_id: String, reason: String },
    ConflictingRules { rule1_id: String, rule2_id: String, conflict: String },
    ActionFailed { rule_id: String, action: String, key: ObjectKey, reason: String },
    InvalidExpiration { rule_id: String, reason: String },
    InvalidTransition { rule_id: String, reason: String },
    ProcessingError { message: String },
    TooManyRules { count: usize, max: usize },
    RuleNotFound { rule_id: String },
    ValidationFailed { errors: Vec<String> },
    RepositoryError { message: String },
    ActionExecutionFailed { action: String, reason: String },
}

/// A plain model of [`LifecycleError`].
pub enum LifecycleErrorView {
    ConfigurationNotFound { bucket: Seq<char> },
    InvalidRule { rule_id: Seq<char>, reason: Seq<char> },
    ConflictingRules { rule1_id: Seq<char>, rule2_id: Seq<char>, conflict: Seq<char> },
    ActionFailed { rule_id: Seq<char>, action: Seq<char>, key: Seq<char>, reason: Seq<char> },
    InvalidExpiration { rule_id: Seq<char>, reason: Seq<char> },
    InvalidTransition { rule_id: Seq<char>, reason: Seq<char> },
    ProcessingError { message: Seq<char> },
    TooManyRules { count: usize, max: usize },
    RuleNotFound { rule_id: Seq<char> },
    ValidationFailed { errors: Seq<Seq<char>> },
    RepositoryError { message: Seq<char> },
    ActionExecutionFailed { action: Seq<char>, reason: Seq<char> },
}

impl View for LifecycleError {
    type V = LifecycleErrorView;

    open spec fn view(&self) -> LifecycleErrorView {
        match self {
            LifecycleError::ConfigurationNotFound { bucket } =>
                LifecycleErrorView::ConfigurationNotFound { bucket: bucket@ },
            LifecycleError::InvalidRule { rule_id, reason } => LifecycleErrorView::InvalidRule {
                rule_id: rule_id@,
                reason: reason@,
            },
            LifecycleError::ConflictingRules { rule1_id, rule2_id, conflict } =>
                LifecycleErrorView::ConflictingRules {
                rule1_id: rule1_id@,
                rule2_id: rule2_id@,
                conflict: conflict@,
            },
            LifecycleError::ActionFailed { rule_id, action, key, reason } =>
                LifecycleErrorView::ActionFailed {
                rule_id: rule_id@,
                action: action@,
                key: key@,
                reason: reason@,
            },
            LifecycleError::InvalidExpiration { rule_id, reason } =>
                LifecycleErrorView::InvalidExpiration { rule_id: rule_id@, reason: reason@ },
            LifecycleError::InvalidTransition { rule_id, reason } =>
                LifecycleErrorView::InvalidTransition { rule_id: rule_id@, reason: reason@ },
            LifecycleError::ProcessingError { message } => LifecycleErrorView::ProcessingError {
                message: message@,
            },
            LifecycleError::TooManyRules { count, max } => LifecycleErrorView::TooManyRules {
                count: *count,
                max: *max,
            },
            LifecycleError::RuleNotFound { rule_id } => LifecycleErrorView::RuleNotFound {
                rule_id: rule_id@,
            },
            LifecycleError::ValidationFailed { errors } => LifecycleErrorView::ValidationFailed {
                errors: string_views(errors@),
            },
            LifecycleError::RepositoryError { message } => LifecycleErrorView::RepositoryError {
                message: message@,
            },
            LifecycleError::ActionExecutionFailed { action, reason } =>
                LifecycleErrorView::ActionExecutionFailed { action: action@, reason: reason@ },
        }
    }
}

impl LifecycleErrorView {
    /// The human-readable message of the error.
    pub open spec fn message(self) -> Seq<char> {
        match self {
            LifecycleErrorView::ConfigurationNotFound { bucket } =>
                "Lifecycle configuration not found for bucket: "@ + bucket,
            LifecycleErrorView::InvalidRule { rule_id, reason } => "Invalid lifecycle rule '"@
                + rule_id + "': "@ + reason,
            LifecycleErrorView::ConflictingRules { rule1_id, rule2_id, conflict } =>
                "Conflicting lifecycle rules '"@ + rule1_id + "' and '"@ + rule2_id + "': "@
                + conflict,
            LifecycleErrorView::ActionFailed { rule_id, action, key, reason } =>
                "Lifecycle action '"@ + action + "' failed for rule '"@ + rule_id
                + "' on object '"@ + key + "': "@ + reason,
            LifecycleErrorView::InvalidExpiration { rule_id, reason } =>
                "Invalid expiration configuration in rule '"@ + rule_id + "': "@ + reason,
            LifecycleErrorView::InvalidTransition { rule_id, reason } =>
                "Invalid transition configuration in rule '"@ + rule_id + "': "@ + reason,
            LifecycleErrorView::ProcessingError { message } => "Lifecycle processing error: "@
                + message,
            LifecycleErrorView::TooManyRules { count, max } => "Too many lifecycle rules: "@
                + decimal(count as nat) + " (max: "@ + decimal(max as nat) + ")"@,
            LifecycleErrorView::RuleNotFound { rule_id } => "Lifecycle rule not found: "@ + rule_id,
            LifecycleErrorView::ValidationFailed { errors } => "Validation failed: "@ + join_with(
                errors,
                ", "@,
            ),
            LifecycleErrorView::RepositoryError { message } => "Repository error: "@ + message,
            LifecycleErrorView::ActionExecutionFailed { action, reason } => "Action '"@ + action
                + "' execution failed: "@ + reason,
        }
    }
}

impl LifecycleError {
    /// The human-readable message of the error (what `Display` shows).
    pub fn message(&self) -> (r: String)
        ensures
            r@ == self@.message(),
    {
        match self {
            LifecycleError::ConfigurationNotFound { bucket } => concat_str(
                "Lifecycle configuration not found for bucket: ",
                bucket.as_str(),
            ),
            LifecycleError::InvalidRule { rule_id, reason } => concat4(
                "Invalid lifecycle rule '",
                rule_id.as_str(),
                "': ",
                reason.as_str(),
            ),
            LifecycleError::ConflictingRules { rule1_id, rule2_id, conflict } => {
                let mut s = concat4(
                    "Conflicting lifecycle rules '",
                    rule1_id.as_str(),
                    "' and '",
                    rule2_id.as_str(),
                );
                push_str(&mut s, "': ");
                push_str(&mut s, conflict.as_str());
                s
            },
            LifecycleError::ActionFailed { rule_id, action, key, reason } => {
                let mut s = concat4(
                    "Lifecycle action '",
                    action.as_str(),
                    "' failed for rule '",
                    rule_id.as_str(),
                );
                push_str(&mut s, "' on object '");
                push_str(&mut s, key.as_str());
                push_str(&mut s, "': ");
                push_str(&mut s, reason.as_str());
                s
            },
            LifecycleError::InvalidExpiration { rule_id, reason } => concat4(
                "Invalid expiration configuration in rule '",
                rule_id.as_str(),
                "': ",
                reason.as_str(),
            ),
            LifecycleError::InvalidTransition { rule_id, reason } => concat4(
                "Invalid transition configuration in rule '",
                rule_id.as_str(),
                "': ",
                reason.as_str(),
            ),
            LifecycleError::ProcessingError { message } => concat_str(
                "Lifecycle processing error: ",
                message.as_str(),
            ),
            LifecycleError::TooManyRules { count, max } => message_with_two_numbers(
                "Too many lifecycle rules: ",
                *count,
                " (max: ",
                *max,
                ")",
            ),
            LifecycleError::RuleNotFound { rule_id } => concat_str(
                "Lifecycle rule not found: ",
                rule_id.as_str(),
            ),
            LifecycleError::ValidationFailed { errors } => {
                let joined = join_strings(errors, ", ");
                concat_str("Validation failed: ", joined.as_str())
            },
            LifecycleError::RepositoryError { message } => concat_str(
                "Repository error: ",
                message.as_str(),
            ),
            LifecycleError::ActionExecutionFailed { action, reason } => concat4(
                "Action '",
                action.as_str(),
                "' execution failed: ",
                reason.as_str(),
            ),
        }
    }
}


impl StorageError {
    /// The HTTP status code that reports this error.
    pub open spec fn spec_status_code(self) -> u16 {
        match self {
            StorageError::ObjectNotFound { .. } | StorageError::VersionNotFound { .. } => 404,
            StorageError::VersionConflict { .. } => 409,
            StorageError::QuotaExceeded { .. } => 507,
            StorageError::InvalidObjectSize { .. }
            | StorageError::InvalidStorageClass { .. }
            | StorageError::ValidationError { .. } => 400,
            StorageError::AccessDenied { .. } => 403,
            StorageError::ObjectAlreadyExists { .. } => 409,
            StorageError::OperationNotSupported { .. } | StorageError::UnsupportedOperation {
                ..
            } => 501,
            StorageError::InfrastructureError { .. }
            | StorageError::InternalError { .. }
            | StorageError::StorageBackendError { .. } => 500,
        }
    }

    /// The HTTP status code that reports this error.
    pub fn status_code(&self) -> (r: u16)
        ensures
            r == self.spec_status_code(),
    {
        match self {
            StorageError::ObjectNotFound { .. } | StorageError::VersionNotFound { .. } => 404,
            StorageError::VersionConflict { .. } => 409,
            StorageError::QuotaExceeded { .. } => 507,
            StorageError::InvalidObjectSize { .. }
            | StorageError::InvalidStorageClass { .. }
            | StorageError::ValidationError { .. } => 400,
            StorageError::AccessDenied { .. } => 403,
            StorageError::ObjectAlreadyExists { .. } => 409,
            StorageError::OperationNotSupported { .. } | StorageError::UnsupportedOperation {
                ..
            } => 501,
            StorageError::InfrastructureError { .. }
            | StorageError::InternalError { .. }
            | StorageError::StorageBackendError { .. } => 500,
        }
    }
}

impl LifecycleErrorView {
    /// The HTTP status code that reports this error.
    pub open spec fn status(self) -> u16 {
        match self {
            LifecycleErrorView::ValidationFailed { .. }
            | LifecycleErrorView::InvalidRule { .. }
            | LifecycleErrorView::ConflictingRules { .. }
            | LifecycleErrorView::InvalidExpiration { .. }
            | LifecycleErrorView::InvalidTransition { .. }
            | LifecycleErrorView::TooManyRules { .. } => 400,
            LifecycleErrorView::ConfigurationNotFound { .. }
            | LifecycleErrorView::RuleNotFound { .. } => 404,
            LifecycleErrorView::ActionFailed { .. }
            | LifecycleErrorView::ActionExecutionFailed { .. }
            | LifecycleErrorView::ProcessingError { .. }
            | LifecycleErrorView::RepositoryError { .. } => 500,
        }
    }
}

impl LifecycleError {
    /// The HTTP status code that reports this error.
    pub open spec fn spec_status_code(self) -> u16 {
        self@.status()
    }

    /// The HTTP status code that reports this error.
    pub fn status_code(&self) -> (r: u16)
        ensures
            r == self.spec_status_code(),
    {
        match self {
            LifecycleError::ValidationFailed { .. }
            | LifecycleError::InvalidRule { .. }
            | LifecycleError::ConflictingRules { .. }
            | LifecycleError::InvalidExpiration { .. }
            | LifecycleError::InvalidTransition { .. }
            | LifecycleError::TooManyRules { .. } => 400,
            LifecycleError::ConfigurationNotFound { .. } | LifecycleError::RuleNotFound { .. } => 404,
            LifecycleError::ActionFailed { .. }
            | LifecycleError::ActionExecutionFailed { .. }
            | LifecycleError::ProcessingError { .. }
            | LifecycleError::RepositoryError { .. } => 500,
        }
    }
}

} // verus!
