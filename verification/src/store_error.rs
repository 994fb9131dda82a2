use vstd::prelude::*;
use vstd::string::*;

use crate::errors::{LifecycleError, LifecycleErrorView, StorageError, StorageErrorView};
use crate::text::{chars_of, concat_str, decimal, push_decimal, push_str, string_from_subrange, string_views};
use crate::value_objects::{object_key_error, version_id_error, ObjectKey, VersionId};

verus! {

/// What `http::StatusCode` writes with `Display` for a status code: the number and, when
/// known, its reason phrase (such as `404 Not Found`).
pub uninterp spec fn status_code_text(code: u16) -> Seq<char>;

/// `http::StatusCode::from_u16(code)` formatted with `Display`; the code lies in the range
/// that `from_u16` accepts.
#[verifier::external_body]
pub(crate) fn status_display(code: u16) -> (r: String)
    requires
        100 <= code <= 999,
    ensures
        r@ == status_code_text(code),
{
    match http::StatusCode::from_u16(code) {
        Ok(s) => s.to_string(),
        Err(_) => String::new(),
    }
}

/// The kinds of `object_store` errors that conversions tell apart.
#[derive(Debug, Clone, PartialEq)]
pub enum ObjectStoreErrorKind {
    NotFound { path: String },
    AlreadyExists { path: String },
    Precondition { path: String },
    NotSupported,
    NotModified,
    Other,
}

/// Errors of the storage adapters.
#[derive(Debug, Clone)]
pub enum StoreError {
    /// An `object_store` error: its kind and its message.
    ObjectStore { kind: ObjectStoreErrorKind, message: String },
    Io(String),
    InvalidLifecycleConfig(String),
    VersionNotFound(String),
    BucketNotFound(String),
    ObjectNotFound(String),
    Serialization(String),
    Http { status: u16, message: String },
    Other(String),
}

impl StoreError {
    /// The HTTP status code is a valid one.
    pub open spec fn wf(self) -> bool {
        match self {
            StoreError::Http { status, .. } => 100 <= status <= 999,
            _ => true,
        }
    }

    /// The human-readable message (what `Display` shows).
    pub open spec fn spec_message(self) -> Seq<char> {
        match self {
            StoreError::ObjectStore { message, .. } => "Object store error: "@ + message@,
            StoreError::Io(m) => "IO error: "@ + m@,
            StoreError::InvalidLifecycleConfig(m) => "Invalid lifecycle configuration: "@ + m@,
            StoreError::VersionNotFound(m) => "Version not found: "@ + m@,
            StoreError::BucketNotFound(m) => "Bucket not found: "@ + m@,
            StoreError::ObjectNotFound(m) => "Object not found: "@ + m@,
            StoreError::Serialization(m) => "Serialization error: "@ + m@,
            StoreError::Http { status, message } => "HTTP error: "@ + status_code_text(status)
                + " - "@ + message@,
            StoreError::Other(m) => m@,
        }
    }

    /// The human-readable message (what `Display` shows).
    pub fn message(&self) -> (r: String)
        requires
            self.wf(),
        ensures
            r@ == self.spec_message(),
    {
        match self {
            StoreError::ObjectStore { message, .. } => concat_str(
                "Object store error: ",
                message.as_str(),
            ),
            StoreError::Io(m) => concat_str("IO error: ", m.as_str()),
            StoreError::InvalidLifecycleConfig(m) => concat_str(
                "Invalid lifecycle configuration: ",
                m.as_str(),
            ),
            StoreError::VersionNotFound(m) => concat_str("Version not found: ", m.as_str()),
            StoreError::BucketNotFound(m) => concat_str("Bucket not found: ", m.as_str()),
            StoreError::ObjectNotFound(m) => concat_str("Object not found: ", m.as_str()),
            StoreError::Serialization(m) => concat_str("Serialization error: ", m.as_str()),
            StoreError::Http { status, message } => {
                let code = status_display(*status);
                let mut s = concat_str("HTTP error: ", code.as_str());
                push_str(&mut s, " - ");
                push_str(&mut s, message.as_str());
                s
            },
            StoreError::Other(m) => m.clone(),
        }
    }

    /// The HTTP status code for the error.
    pub open spec fn spec_status_code(self) -> u16 {
        match self {
            StoreError::ObjectNotFound(_) | StoreError::VersionNotFound(_) => 404,
            StoreError::BucketNotFound(_) => 404,
            StoreError::InvalidLifecycleConfig(_) => 400,
            StoreError::Http { status, .. } => status,
            _ => 500,
        }
    }

    /// The HTTP status code for the error.
    pub fn status_code(&self) -> (r: u16)
        ensures
            r == self.spec_status_code(),
    {
        match self {
            StoreError::ObjectNotFound(_) | StoreError::VersionNotFound(_) => 404,
            StoreError::BucketNotFound(_) => 404,
            StoreError::InvalidLifecycleConfig(_) => 400,
            StoreError::Http { status, .. } => *status,
            _ => 500,
        }
    }

    /// The lifecycle error for this error: an invalid configuration fails validation with
    /// its message; serialization and IO failures, and all others, are repository errors.
    pub fn to_lifecycle_error(&self) -> (r: LifecycleError)
        requires
            self.wf(),
        ensures
            r@ == match self {
                StoreError::InvalidLifecycleConfig(m) => LifecycleErrorView::ValidationFailed {
                    errors: seq![m@],
                },
                StoreError::Serialization(m) => LifecycleErrorView::RepositoryError {
                    message: "Configuration serialization failed: "@ + m@,
                },
                StoreError::Io(m) => LifecycleErrorView::RepositoryError {
                    message: "IO operation failed: "@ + m@,
                },
                _ => LifecycleErrorView::RepositoryError {
                    message: "Infrastructure error: "@ + self.spec_message(),
                },
            },
    {
        match self {
            StoreError::InvalidLifecycleConfig(m) => {
                let mut errors: Vec<String> = Vec::new();
                errors.push(m.clone());
                assert(string_views(errors@) =~= seq![m@]);
                LifecycleError::ValidationFailed { errors }
            },
            StoreError::Serialization(m) => LifecycleError::RepositoryError {
                message: concat_str("Configuration serialization failed: ", m.as_str()),
            },
            StoreError::Io(m) => LifecycleError::RepositoryError {
                message: concat_str("IO operation failed: ", m.as_str()),
            },
            _ => {
                let text = self.message();
                LifecycleError::RepositoryError {
                    message: concat_str("Infrastructure error: ", text.as_str()),
                }
            },
        }
    }
}

/// The first position of `c` in `s`, if any.
pub open spec fn first_index_of(s: Seq<char>, c: char) -> Option<int> {
    if exists|i: int| 0 <= i < s.len() && s[i] == c {
        Some(
            choose|i: int|
                0 <= i < s.len() && s[i] == c && forall|j: int| 0 <= j < i ==> s[j] != c,
        )
    } else {
        None
    }
}

/// The position of the first `c` in `chars`.
fn find_first(chars: &Vec<char>, c: char) -> (r: Option<usize>)
    ensures
        match r {
            Some(i) => first_index_of(chars@, c) == Some(i as int) && i < chars@.len(),
            None => first_index_of(chars@, c) is None,
        },
{
    let mut i: usize = 0;
    while i < chars.len()
        invariant
            i <= chars.len(),
            forall|j: int| 0 <= j < i ==> chars@[j] != c,
        decreases chars.len() - i,
    {
        if chars[i] == c {
            proof {
                let s = chars@;
                assert(0 <= i < s.len() && s[i as int] == c && forall|j: int|
                    0 <= j < i ==> s[j] != c);
                let k = choose|k: int|
                    0 <= k < s.len() && s[k] == c && forall|j: int| 0 <= j < k ==> s[j] != c;
                assert(k == i as int) by {
                    if k < i {
                        assert(s[k] != c);
                    } else if k > i {
                        assert(s[i as int] != c);
                    }
                }
            }
            return Some(i);
        }
        i = i + 1;
    }
    None
}

/// An object key from a path, or the validation error that reports a bad path.
pub open spec fn key_or_invalid(
    path: Seq<char>,
    found: StorageErrorView,
    label: Seq<char>,
) -> StorageErrorView {
    if object_key_error(path) is None {
        found
    } else {
        StorageErrorView::ValidationError { message: label + path }
    }
}

/// The storage error that reports a lookup of version `info`, written `key:version`.
pub open spec fn version_lookup_error(info: Seq<char>) -> StorageErrorView {
    match first_index_of(info, ':') {
        Some(i) => {
            let key = info.take(i);
            let version = info.skip(i + 1);
            if object_key_error(key) is None && version_id_error(version) is None {
                StorageErrorView::VersionNotFound { key, version_id: version }
            } else {
                StorageErrorView::ValidationError { message: "Invalid version info: "@ + info }
            }
        },
        None => StorageErrorView::ValidationError { message: "Invalid version info format: "@ + info },
    }
}

impl StoreError {
    /// The domain storage error for this error.
    pub open spec fn spec_storage_error(self) -> StorageErrorView {
        match self {
            StoreError::ObjectStore { kind, message } => match kind {
                ObjectStoreErrorKind::NotFound { path } => key_or_invalid(
                    path@,
                    StorageErrorView::ObjectNotFound { key: path@ },
                    "Invalid object path from store: "@,
                ),
                ObjectStoreErrorKind::AlreadyExists { path } => key_or_invalid(
                    path@,
                    StorageErrorView::ObjectAlreadyExists { key: path@ },
                    "Invalid object path from store: "@,
                ),
                ObjectStoreErrorKind::Precondition { path } => key_or_invalid(
                    path@,
                    StorageErrorView::VersionConflict {
                        key: path@,
                        expected_version: None,
                        actual_version: None,
                    },
                    "Invalid object path from store: "@,
                ),
                ObjectStoreErrorKind::NotSupported => StorageErrorView::UnsupportedOperation {
                    operation: "unknown"@,
                    reason: message@,
                },
                ObjectStoreErrorKind::NotModified => StorageErrorView::InfrastructureError {
                    message: "Object not modified"@,
                    source: Some(message@),
                },
                ObjectStoreErrorKind::Other => StorageErrorView::InfrastructureError {
                    message: "Object store operation failed: "@ + message@,
                    source: Some(message@),
                },
            },
            StoreError::ObjectNotFound(path) => key_or_invalid(
                path@,
                StorageErrorView::ObjectNotFound { key: path@ },
                "Invalid object path: "@,
            ),
            StoreError::VersionNotFound(info) => version_lookup_error(info@),
            StoreError::BucketNotFound(b) => StorageErrorView::ValidationError {
                message: "Bucket not found: "@ + b@,
            },
            StoreError::InvalidLifecycleConfig(m) => StorageErrorView::ValidationError { message: m@ },
            StoreError::Serialization(m) => StorageErrorView::InfrastructureError {
                message: "Serialization failed: "@ + m@,
                source: Some(m@),
            },
            StoreError::Io(m) => StorageErrorView::InfrastructureError {
                message: "IO operation failed: "@ + m@,
                source: Some(m@),
            },
            StoreError::Http { status, message } => if 400 <= status <= 499 {
                StorageErrorView::ValidationError { message: message@ }
            } else {
                StorageErrorView::InfrastructureError {
                    message: "HTTP error "@ + status_code_text(status) + ": "@ + message@,
                    source: Some(status_code_text(status) + ": "@ + message@),
                }
            },
            StoreError::Other(m) => StorageErrorView::InternalError { message: m@ },
        }
    }

    /// The domain storage error for this error.
    pub fn to_storage_error(&self) -> (r: StorageError)
        requires
            self.wf(),
        ensures
            r@ == self.spec_storage_error(),
    {
        match self {
            StoreError::ObjectStore { kind, message } => match kind {
                ObjectStoreErrorKind::NotFound { path } => match ObjectKey::new(path.clone()) {
                    Ok(key) => StorageError::ObjectNotFound { key },
                    Err(_) => StorageError::ValidationError {
                        message: concat_str("Invalid object path from store: ", path.as_str()),
                    },
                },
                ObjectStoreErrorKind::AlreadyExists { path } => match ObjectKey::new(path.clone()) {
                    Ok(key) => StorageError::ObjectAlreadyExists { key },
                    Err(_) => StorageError::ValidationError {
                        message: concat_str("Invalid object path from store: ", path.as_str()),
                    },
                },
                ObjectStoreErrorKind::Precondition { path } => match ObjectKey::new(path.clone()) {
                    Ok(key) => StorageError::VersionConflict {
                        key,
                        expected_version: None,
                        actual_version: None,
                    },
                    Err(_) => StorageError::ValidationError {
                        message: concat_str("Invalid object path from store: ", path.as_str()),
                    },
                },
                ObjectStoreErrorKind::NotSupported => StorageError::UnsupportedOperation {
                    operation: String::from_str("unknown"),
                    reason: message.clone(),
                },
                ObjectStoreErrorKind::NotModified => StorageError::InfrastructureError {
                    message: String::from_str("Object not modified"),
                    source: Some(message.clone()),
                },
                ObjectStoreErrorKind::Other => StorageError::InfrastructureError {
                    message: concat_str("Object store operation failed: ", message.as_str()),
                    source: Some(message.clone()),
                },
            },
            StoreError::ObjectNotFound(path) => match ObjectKey::new(path.clone()) {
                Ok(key) => StorageError::ObjectNotFound { key },
                Err(_) => StorageError::ValidationError {
                    message: concat_str("Invalid object path: ", path.as_str()),
                },
            },
            StoreError::VersionNotFound(info) => {
                let chars = chars_of(info.as_str());
                match find_first(&chars, ':') {
                    Some(i) => {
                        let key_str = string_from_subrange(chars.as_slice(), 0, i);
                        let version_str = string_from_subrange(chars.as_slice(), i + 1, chars.len());
                        proof {
                            assert(key_str@ =~= info@.take(i as int));
                            assert(version_str@ =~= info@.skip(i + 1));
                        }
                        match (ObjectKey::new(key_str), VersionId::new(version_str)) {
                            (Ok(key), Ok(version_id)) => StorageError::VersionNotFound { key, version_id },
                            _ => StorageError::ValidationError {
                                message: concat_str("Invalid version info: ", info.as_str()),
                            },
                        }
                    },
                    None => StorageError::ValidationError {
                        message: concat_str("Invalid version info format: ", info.as_str()),
                    },
                }
            },
            StoreError::BucketNotFound(b) => StorageError::ValidationError {
                message: concat_str("Bucket not found: ", b.as_str()),
            },
            StoreError::InvalidLifecycleConfig(m) => StorageError::ValidationError { message: m.clone() },
            StoreError::Serialization(m) => StorageError::InfrastructureError {
                message: concat_str("Serialization failed: ", m.as_str()),
                source: Some(m.clone()),
            },
            StoreError::Io(m) => StorageError::InfrastructureError {
                message: concat_str("IO operation failed: ", m.as_str()),
                source: Some(m.clone()),
            },
            StoreError::Http { status, message } => {
                if 400 <= *status && *status <= 499 {
                    StorageError::ValidationError { message: message.clone() }
                } else {
                    let code = status_display(*status);
                    let mut source = code.clone();
                    push_str(&mut source, ": ");
                    push_str(&mut source, message.as_str());
                    let mut text = concat_str("HTTP error ", code.as_str());
                    push_str(&mut text, ": ");
                    push_str(&mut text, message.as_str());
                    StorageError::InfrastructureError { message: text, source: Some(source) }
                }
            },
            StoreError::Other(m) => StorageError::InternalError { message: m.clone() },
        }
    }
}

} // verus!
