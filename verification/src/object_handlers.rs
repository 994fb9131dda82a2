use vstd::prelude::*;

use crate::dto::{opt_details_view, storage_error_details, ErrorResponseDto, ListObjectsDto, SuccessResponseDto};
use crate::errors::StorageError;
use crate::filter::opt_view;
use crate::lifecycle_handlers::is_bad_request;
use crate::memory_store::{is_listing_of, listing_root, object_path, prefix_root, ListedObject};
use crate::store::{first_invalid_key, taken_count};
use crate::models::{clone_opt_string, CreateObjectRequest, GetObjectRequest};
use crate::object_repository::has_live_version;
use crate::object_service::ObjectServiceImpl;
use crate::ports::ObjectInfo;
use crate::tags::TagMap;
use crate::text::concat_str;
use crate::time::UtcTime;
use crate::value_objects::{object_key_error, version_id_error, ObjectKey};

verus! {

/// The response reports this storage error with its status code.
pub open spec fn reports_storage_error(code: u16, body: ErrorResponseDto, e: StorageError) -> bool {
    &&& code == e.spec_status_code()
    &&& body.error@ == "StorageError"@
    &&& body.message@ == e@.message()
    &&& opt_details_view(body.details) == storage_error_details(e@)
}

/// The response reports some storage error with its status code.
pub open spec fn is_storage_failure(code: u16, body: ErrorResponseDto) -> bool {
    exists|e: StorageError| #[trigger] reports_storage_error(code, body, e)
}

/// The response for a failed storage operation: the error's status code and its report.
pub fn storage_failure(e: StorageError) -> (r: (u16, ErrorResponseDto))
    ensures
        reports_storage_error(r.0, r.1, e),
        is_storage_failure(r.0, r.1),
{
    let body = ErrorResponseDto::from_storage_error(&e);
    let code = e.status_code();
    assert(reports_storage_error(code, body, e));
    (code, body)
}

/// The key named in the path, or the bad request that rejects it, its message starting
/// with `what`.
pub(crate) fn path_key(key: String, what: &str) -> (r: Result<ObjectKey, (u16, ErrorResponseDto)>)
    ensures
        match object_key_error(key@) {
            Some(e) => r matches Err((c, b)) && is_bad_request(c, b, what@ + e.message()),
            None => r matches Ok(k) && k@ == key@,
        },
{
    match ObjectKey::new(key) {
        Ok(k) => Ok(k),
        Err(e) => {
            let m = e.message();
            let text = concat_str(what, m.as_str());
            Err((400, ErrorResponseDto::bad_request(text.as_str())))
        },
    }
}

/// An object as listed over HTTP.
#[derive(Debug)]
pub struct ObjectInfoDto {
    pub key: String,
    pub size: u64,
    pub last_modified: UtcTime,
    pub etag: Option<String>,
    pub storage_class: Option<String>,
    pub version_id: Option<String>,
}

impl ObjectInfoDto {
    /// The listing entry of an object; storage class and version are not known here.
    pub fn from_info(info: &ObjectInfo) -> (r: ObjectInfoDto)
        ensures
            r.key@ == info.key@,
            r.size == info.size,
            r.last_modified == info.last_modified,
            opt_view(r.etag) == opt_view(info.etag),
            r.storage_class is None,
            r.version_id is None,
    {
        ObjectInfoDto {
            key: String::from_str(info.key.as_str()),
            size: info.size,
            last_modified: info.last_modified,
            etag: clone_opt_string(&info.etag),
            storage_class: None,
            version_id: None,
        }
    }
}

/// A listing of objects as sent over HTTP.
#[derive(Debug)]
pub struct ListObjectsResponseDto {
    pub objects: Vec<ObjectInfoDto>,
    pub is_truncated: bool,
    pub next_continuation_token: Option<String>,
    pub total_count: usize,
}

/// An object's bytes with the content type to send them with.
#[derive(Debug)]
pub struct ObjectBody {
    pub content_type: String,
    pub data: Vec<u8>,
}

/// Stores a new object from the request body.
pub fn create_object(service: &mut ObjectServiceImpl, key: String, content_type: Option<String>, body: Vec<u8>) -> (r:
    Result<(u16, SuccessResponseDto), (u16, ErrorResponseDto)>)
    requires
        old(service).wf(),
    ensures
        final(service).wf(),
        object_key_error(key@) matches Some(e) ==> (r matches Err((c, b))
            && is_bad_request(c, b, "Invalid object key: "@ + e.message())
            && final(service).spec_store().contents() == old(service).spec_store().contents()),
        object_key_error(key@) is None ==> {
            let repo = old(service).spec_repository();
            if repo.objects().dom().contains(key@) && has_live_version(repo.objects()[key@]) {
                r matches Err((c, b)) && c == 409 && is_storage_failure(c, b)
                    && final(service).spec_store().contents() == old(service).spec_store().contents()
            } else {
                r matches Ok((c, b)) && c == 201 && b.message@ == "Object created successfully"@
                    && final(service).spec_store().contents() == old(service).spec_store().contents().insert(
                    object_path(key@),
                    body@,
                )
            }
        },
{
    let object_key = match path_key(key, "Invalid object key: ") {
        Ok(k) => k,
        Err(e) => { return Err(e); },
    };
    let request = CreateObjectRequest { key: object_key, data: body, content_type, custom_metadata: TagMap::new() };
    match service.create_object(request) {
        Ok(_) => Ok((201, SuccessResponseDto::new("Object created successfully"))),
        Err(e) => Err(storage_failure(e)),
    }
}

/// The object's bytes, with its content type (`application/octet-stream` when it has none).
pub fn get_object(service: &ObjectServiceImpl, key: String) -> (r: Result<ObjectBody, (u16, ErrorResponseDto)>)
    requires
        service.wf(),
    ensures
        object_key_error(key@) matches Some(e) ==> (r matches Err((c, b))
            && is_bad_request(c, b, "Invalid object key: "@ + e.message())),
        r matches Ok(o) ==> service.spec_store().contents().dom().contains(object_path(key@))
            && o.data@ == service.spec_store().contents()[object_path(key@)],
        r matches Err((c, b)) ==> c == 400 || is_storage_failure(c, b),
        object_key_error(key@) is None ==> {
            let repo = service.spec_repository();
            let k = key@;
            let found = repo.latest().dom().contains(k) && repo.objects().dom().contains(k)
                && repo.objects()[k].dom().contains(repo.latest()[k])
                && !repo.objects()[k][repo.latest()[k]].deleted
                && service.spec_store().contents().dom().contains(object_path(k));
            if found {
                r matches Ok(o) && o.content_type@ == match opt_view(
                    repo.objects()[k][repo.latest()[k]].metadata.content_type,
                ) {
                    Some(c) => c,
                    None => "application/octet-stream"@,
                }
            } else {
                r matches Err((c, b)) && c == 404 && is_storage_failure(c, b)
            }
        },
{
    let object_key = match path_key(key, "Invalid object key: ") {
        Ok(k) => k,
        Err(e) => { return Err(e); },
    };
    match service.get_object(GetObjectRequest { key: object_key, version_id: None }) {
        Ok(o) => {
            let content_type = match &o.metadata.content_type {
                Some(c) => c.clone(),
                None => String::from_str("application/octet-stream"),
            };
            Ok(ObjectBody { content_type, data: o.data })
        },
        Err(e) => Err(storage_failure(e)),
    }
}

/// Deletes the object.
pub fn delete_object(service: &mut ObjectServiceImpl, key: String) -> (r: Result<(u16, SuccessResponseDto), (u16, ErrorResponseDto)>)
    requires
        old(service).wf(),
    ensures
        final(service).wf(),
        object_key_error(key@) matches Some(e) ==> (r matches Err((c, b))
            && is_bad_request(c, b, "Invalid object key: "@ + e.message())),
        object_key_error(key@) is None && !(old(service).spec_repository().objects().dom().contains(key@)
            && has_live_version(old(service).spec_repository().objects()[key@])) ==> (r matches Err((c, b))
            && c == 404 && is_storage_failure(c, b)),
        r matches Ok((c, b)) ==> c == 200 && b.message@ == "Object deleted successfully"@
            && final(service).spec_store().contents() == old(service).spec_store().contents().remove(object_path(key@)),
        object_key_error(key@) is None && old(service).spec_repository().objects().dom().contains(key@)
            && has_live_version(old(service).spec_repository().objects()[key@]) ==> {
            let repo = old(service).spec_repository();
            let k = key@;
            &&& final(service).spec_store().contents() == old(service).spec_store().contents().remove(
                object_path(k),
            )
            &&& if repo.latest().dom().contains(k) && version_id_error(repo.latest()[k]) is None
                && !repo.objects()[k].dom().contains(repo.latest()[k]) {
                r matches Err((c, b)) && c == 404 && is_storage_failure(c, b)
            } else {
                r matches Ok((c, b)) && c == 200
            }
        },
{
    let object_key = match path_key(key, "Invalid object key: ") {
        Ok(k) => k,
        Err(e) => { return Err(e); },
    };
    match service.delete_object(&object_key) {
        Ok(()) => Ok((200, SuccessResponseDto::new("Object deleted successfully"))),
        Err(e) => Err(storage_failure(e)),
    }
}

/// The size of a live object, with the content type its head response carries; 404 when the
/// object has no live version.
pub fn head_object(service: &ObjectServiceImpl, key: String) -> (r: Result<(u16, u64), (u16, ErrorResponseDto)>)
    requires
        service.wf(),
    ensures
        object_key_error(key@) matches Some(e) ==> (r matches Err((c, b))
            && is_bad_request(c, b, "Invalid object key: "@ + e.message())),
        object_key_error(key@) is None ==> {
            let repo = service.spec_repository();
            let path = object_path(key@);
            if !(repo.objects().dom().contains(key@) && has_live_version(repo.objects()[key@])) {
                r matches Err((c, b)) && c == 404 && b.error@ == "BadRequest"@ && b.message@ == "Object not found"@
            } else if service.spec_store().contents().dom().contains(path) {
                r matches Ok((c, n)) && c == 200 && n == service.spec_store().contents()[path].len()
            } else {
                r matches Err((c, b)) && c == 404 && is_storage_failure(c, b)
            }
        },
{
    let object_key = match path_key(key, "Invalid object key: ") {
        Ok(k) => k,
        Err(e) => { return Err(e); },
    };
    let exists = match service.object_exists(&object_key) {
        Ok(b) => b,
        Err(e) => { return Err(storage_failure(e)); },
    };
    if !exists {
        return Err((404, ErrorResponseDto::bad_request("Object not found")));
    }
    match service.get_object_size(&object_key) {
        Ok(n) => Ok((200, n)),
        Err(e) => Err(storage_failure(e)),
    }
}

/// Lists the objects below the prefix, at most `max_results` of them; the listing counts as
/// truncated when it reached that limit.
pub fn list_objects(service: &ObjectServiceImpl, params: ListObjectsDto) -> (r: Result<ListObjectsResponseDto, (u16, ErrorResponseDto)>)
    ensures
        r matches Ok(resp) ==> resp.total_count == resp.objects@.len() && resp.is_truncated == (match params.max_results {
            Some(m) => resp.objects@.len() >= m,
            None => false,
        }) && resp.next_continuation_token is None,
        r matches Err((c, b)) ==> is_storage_failure(c, b),
        exists|listing: Seq<ListedObject>|
            is_listing_of(listing, service.spec_store().contents(), listing_root(opt_view(params.prefix)))
                && {
                let n = taken_count(listing.len(), params.max_results);
                match first_invalid_key(listing, n as int) {
                    Some(_) => r matches Err((c, b)) && c == 400 && is_storage_failure(c, b),
                    None => r matches Ok(resp) && resp.objects@.len() == n && forall|k: int|
                        0 <= k < n ==> (#[trigger] resp.objects@[k]).key@ == listing[k].location@
                            && resp.objects@[k].size == listing[k].size,
                }
            },
{
    let prefix = match &params.prefix {
        Some(p) => Some(p.as_str()),
        None => None,
    };
    let result = service.list_objects(prefix, params.max_results);
    proof {
        assert(prefix_root(prefix) == listing_root(opt_view(params.prefix)));
    }
    let objects = match result {
        Ok(v) => v,
        Err(e) => { return Err(storage_failure(e)); },
    };
    let mut out: Vec<ObjectInfoDto> = Vec::new();
    let mut i: usize = 0;
    while i < objects.len()
        invariant
            i <= objects@.len(),
            out@.len() == i,
            forall|k: int|
                0 <= k < i ==> (#[trigger] out@[k]).key@ == objects@[k].key@ && out@[k].size
                    == objects@[k].size,
        decreases objects@.len() - i,
    {
        out.push(ObjectInfoDto::from_info(&objects[i]));
        i = i + 1;
    }
    let total_count = out.len();
    let is_truncated = match params.max_results {
        Some(m) => total_count >= m,
        None => false,
    };
    Ok(ListObjectsResponseDto { objects: out, is_truncated, next_continuation_token: None, total_count })
}

/// Copies an object to another key.
pub fn copy_object(service: &mut ObjectServiceImpl, source_key: String, dest_key: String) -> (r: Result<
    (u16, SuccessResponseDto),
    (u16, ErrorResponseDto),
>)
    requires
        old(service).wf(),
    ensures
        final(service).wf(),
        object_key_error(source_key@) matches Some(e) ==> (r matches Err((c, b))
            && is_bad_request(c, b, "Invalid source key: "@ + e.message())),
        object_key_error(source_key@) is None ==> (object_key_error(dest_key@) matches Some(e) ==> (r matches Err((c, b))
            && is_bad_request(c, b, "Invalid destination key: "@ + e.message()))),
        r matches Ok((c, b)) ==> c == 200 && b.message@ == "Object copied successfully"@
            && old(service).spec_store().contents().dom().contains(object_path(source_key@))
            && final(service).spec_store().contents() == old(service).spec_store().contents().insert(
            object_path(dest_key@),
            old(service).spec_store().contents()[object_path(source_key@)],
        ),
        r is Err ==> final(service).spec_store().contents() == old(service).spec_store().contents(),
        object_key_error(source_key@) is None && object_key_error(dest_key@) is None ==> {
            let repo = old(service).spec_repository();
            let contents = old(service).spec_store().contents();
            let src = source_key@;
            let found = repo.latest().dom().contains(src) && repo.objects().dom().contains(src)
                && repo.objects()[src].dom().contains(repo.latest()[src])
                && !repo.objects()[src][repo.latest()[src]].deleted
                && contents.dom().contains(object_path(src));
            if !found {
                r matches Err((c, b)) && c == 404 && is_storage_failure(c, b)
            } else if repo.objects().dom().contains(dest_key@) && has_live_version(repo.objects()[dest_key@]) {
                r matches Err((c, b)) && c == 409 && is_storage_failure(c, b)
            } else {
                r matches Ok((c, b)) && c == 200 && b.message@ == "Object copied successfully"@
            }
        },
{
    let source = match path_key(source_key, "Invalid source key: ") {
        Ok(k) => k,
        Err(e) => { return Err(e); },
    };
    let dest = match path_key(dest_key, "Invalid destination key: ") {
        Ok(k) => k,
        Err(e) => { return Err(e); },
    };
    match service.copy_object(&source, &dest) {
        Ok(_) => Ok((200, SuccessResponseDto::new("Object copied successfully"))),
        Err(e) => Err(storage_failure(e)),
    }
}

} // verus!
