use vstd::prelude::*;

use crate::dto::{ErrorResponseDto, ListVersionsResponseDto, SuccessResponseDto, VersionedObjectDto};
use crate::errors::StorageError;
use crate::filter::opt_view;
use crate::lifecycle_handlers::is_bad_request;
use crate::memory_store::object_path;
use crate::models::{
    clone_opt_string, CreateObjectRequest, DeleteVersionRequest, DeleteVersionResult,
    GetObjectRequest, ObjectVersionInfo, VersionedObject,
};
use crate::object_handlers::{path_key, reports_storage_error, storage_failure};
use crate::store::{uuid_text, versioned_key_error, versioned_path_spec};
use crate::tags::TagMap;
use crate::text::concat_str;
use crate::value_objects::{object_key_error, version_id_error, ObjectKey, VersionId};
use crate::versioning_service::{create_outcome, delete_outcome, VersioningServiceImpl};

verus! {

/// Whether copying a version succeeds (`ok`): never when the source's versioned path is no
/// valid key or holds no bytes; otherwise always, unless the destination's versioned path
/// under some drawn version id is no valid key.
pub open spec fn copy_answer(
    contents: Map<Seq<char>, Seq<u8>>,
    source_key: Seq<char>,
    source_version: Seq<char>,
    dest_key: Seq<char>,
    ok: bool,
) -> bool {
    if versioned_key_error(source_key, source_version, "Invalid source versioned key: "@) is Some
        || !contents.dom().contains(object_path(versioned_path_spec(source_key, source_version))) {
        !ok
    } else {
        ok || exists|v: Seq<char>|
            uuid_text(v) && #[trigger] versioned_key_error(
                dest_key,
                v,
                "Invalid destination versioned key: "@,
            ) is Some
    }
}

/// Paging of a version listing.
#[derive(Debug)]
pub struct ListVersionsQuery {
    pub max_keys: Option<usize>,
    pub key_marker: Option<String>,
    pub version_id_marker: Option<String>,
}

/// What creating a version answers.
#[derive(Debug)]
pub struct VersionCreatedDto {
    pub message: String,
    pub version_id: String,
    pub key: String,
}

/// A version's bytes with the content type and version id they are sent with.
#[derive(Debug)]
pub struct VersionBody {
    pub content_type: String,
    pub version_id: String,
    pub data: Vec<u8>,
}

/// What a check for a version answers: the headers it carries.
#[derive(Debug)]
pub struct VersionHead {
    pub version_id: String,
    pub content_type: String,
}

/// What copying a version answers.
#[derive(Debug)]
pub struct VersionCopiedDto {
    pub message: String,
    pub source_key: String,
    pub source_version_id: String,
    pub destination_key: String,
    pub new_version_id: String,
}

/// What restoring a version answers.
#[derive(Debug)]
pub struct VersionRestoredDto {
    pub message: String,
    pub key: String,
    pub restored_version_id: String,
    pub new_version_id: String,
}

/// The content type a version is sent with: its own, or `application/octet-stream`.
pub open spec fn served_content_type(content_type: Option<Seq<char>>) -> Seq<char> {
    match content_type {
        Some(c) => c,
        None => "application/octet-stream"@,
    }
}

/// The body serves the version: its bytes, its id and its content type.
pub open spec fn serves(body: VersionBody, o: VersionedObject) -> bool {
    &&& body.data@ == o.data@
    &&& body.version_id@ == o.version_id@
    &&& body.content_type@ == served_content_type(opt_view(o.metadata.content_type))
}

/// The version id named in the path, or the bad request that rejects it, its message
/// starting with `what`.
fn path_version(id: String, what: &str) -> (r: Result<VersionId, (u16, ErrorResponseDto)>)
    ensures
        match version_id_error(id@) {
            Some(e) => r matches Err((c, b)) && is_bad_request(c, b, what@ + e.message()),
            None => r matches Ok(v) && v@ == id@,
        },
{
    match VersionId::new(id) {
        Ok(v) => Ok(v),
        Err(e) => {
            let m = e.message();
            let text = concat_str(what, m.as_str());
            Err((400, ErrorResponseDto::bad_request(text.as_str())))
        },
    }
}

/// The paths' key and version are both valid.
pub open spec fn valid_key_and_version(key: Seq<char>, version_id: Seq<char>) -> bool {
    object_key_error(key) is None && version_id_error(version_id) is None
}

/// The bad request for an invalid key, or else for an invalid version id, when there is one.
pub open spec fn rejects_key_or_version(
    key: Seq<char>,
    version_id: Seq<char>,
    r: Result<VersionBody, (u16, ErrorResponseDto)>,
) -> bool {
    match object_key_error(key) {
        Some(e) => r matches Err((c, b)) && is_bad_request(c, b, "Invalid object key: "@ + e.message()),
        None => match version_id_error(version_id) {
            Some(e) => r matches Err((c, b)) && is_bad_request(
                c,
                b,
                "Invalid version ID: "@ + e.message(),
            ),
            None => true,
        },
    }
}

/// A version id taken as characters.
pub open spec fn opt_version(v: Option<VersionId>) -> Option<Seq<char>> {
    match v {
        Some(x) => Some(x@),
        None => None,
    }
}

/// Sends the version read by the request, or reports why it cannot be read.
fn serve_version(service: &VersioningServiceImpl, key: ObjectKey, version_id: Option<VersionId>) -> (r:
    Result<VersionBody, (u16, ErrorResponseDto)>)
    requires
        service.wf(),
    ensures
        match r {
            Ok(body) => exists|o: VersionedObject|
                service.get_outcome(key@, opt_version(version_id), Ok(o)) && #[trigger] serves(body, o),
            Err((c, b)) => exists|e: StorageError|
                service.get_outcome(key@, opt_version(version_id), Err(e))
                    && #[trigger] reports_storage_error(c, b, e),
        },
{
    let request = GetObjectRequest { key, version_id };
    match service.get_object(request) {
        Ok(o) => {
            let content_type = match &o.metadata.content_type {
                Some(c) => c.clone(),
                None => String::from_str("application/octet-stream"),
            };
            let body = VersionBody {
                content_type,
                version_id: String::from_str(o.version_id.as_str()),
                data: o.data,
            };
            let res: Result<VersionBody, (u16, ErrorResponseDto)> = Ok(body);
            assert(res matches Ok(bd) && serves(bd, o));
            res
        },
        Err(e) => {
            let f = storage_failure(e);
            Err(f)
        },
    }
}

/// Stores the request body as a new version of the object, with the content type of the
/// request and no custom metadata.
pub fn put_versioned_object(
    service: &mut VersioningServiceImpl,
    key: String,
    content_type: Option<String>,
    body: Vec<u8>,
) -> (r: Result<VersionCreatedDto, (u16, ErrorResponseDto)>)
    requires
        old(service).wf(),
    ensures
        final(service).wf(),
        final(service).configs() == old(service).configs(),
        match object_key_error(key@) {
            Some(e) => (r matches Err((c, b)) && is_bad_request(
                c,
                b,
                "Invalid object key: "@ + e.message(),
            )) && *final(service) == *old(service),
            None => match r {
                Ok(dto) => dto.message@ == "Versioned object created successfully"@ && dto.key@
                    == key@ && exists|o: VersionedObject|
                    #[trigger] create_outcome(
                        *old(service),
                        *final(service),
                        key@,
                        body@,
                        opt_view(content_type),
                        Map::empty(),
                        Ok(o),
                    ) && dto.version_id@ == o.version_id@,
                Err((c, b)) => exists|e: StorageError|
                    #[trigger] create_outcome(
                        *old(service),
                        *final(service),
                        key@,
                        body@,
                        opt_view(content_type),
                        Map::empty(),
                        Err(e),
                    ) && reports_storage_error(c, b, e),
            },
        },
{
    let object_key = match path_key(key, "Invalid object key: ") {
        Ok(k) => k,
        Err(e) => {
            return Err(e);
        },
    };
    let ghost ct = opt_view(content_type);
    let request = CreateObjectRequest {
        key: object_key.clone(),
        data: body,
        content_type,
        custom_metadata: TagMap::new(),
    };
    match service.create_versioned_object(request) {
        Ok(o) => {
            let dto = VersionCreatedDto {
                message: String::from_str("Versioned object created successfully"),
                version_id: String::from_str(o.version_id.as_str()),
                key: String::from_str(object_key.as_str()),
            };
            Ok(dto)
        },
        Err(e) => {
            let f = storage_failure(e);
            Err(f)
        },
    }
}

/// Sends a version of the object, with its content type and version id.
pub fn get_versioned_object(service: &VersioningServiceImpl, key: String, version_id: String) -> (r:
    Result<VersionBody, (u16, ErrorResponseDto)>)
    requires
        service.wf(),
    ensures
        rejects_key_or_version(key@, version_id@, r),
        valid_key_and_version(key@, version_id@) ==> match r {
            Ok(body) => exists|o: VersionedObject|
                service.get_outcome(key@, Some(version_id@), Ok(o)) && #[trigger] serves(body, o),
            Err((c, b)) => exists|e: StorageError|
                service.get_outcome(key@, Some(version_id@), Err(e)) && #[trigger] reports_storage_error(
                    c,
                    b,
                    e,
                ),
        },
{
    let object_key = match path_key(key, "Invalid object key: ") {
        Ok(k) => k,
        Err(e) => {
            return Err(e);
        },
    };
    let version = match path_version(version_id, "Invalid version ID: ") {
        Ok(v) => v,
        Err(e) => {
            return Err(e);
        },
    };
    serve_version(service, object_key, Some(version))
}

/// Sends the latest version of the object, with its content type and version id.
pub fn get_latest_object(service: &VersioningServiceImpl, key: String) -> (r: Result<
    VersionBody,
    (u16, ErrorResponseDto),
>)
    requires
        service.wf(),
    ensures
        match object_key_error(key@) {
            Some(e) => r matches Err((c, b)) && is_bad_request(c, b, "Invalid object key: "@ + e.message()),
            None => match r {
                Ok(body) => exists|o: VersionedObject|
                    service.get_outcome(key@, None, Ok(o)) && #[trigger] serves(body, o),
                Err((c, b)) => exists|e: StorageError|
                    service.get_outcome(key@, None, Err(e)) && #[trigger] reports_storage_error(c, b, e),
            },
        },
{
    let object_key = match path_key(key, "Invalid object key: ") {
        Ok(k) => k,
        Err(e) => {
            return Err(e);
        },
    };
    serve_version(service, object_key, None)
}

/// Deletes a version of the object.
pub fn delete_versioned_object(service: &mut VersioningServiceImpl, key: String, version_id: String) -> (r:
    Result<(u16, SuccessResponseDto), (u16, ErrorResponseDto)>)
    requires
        old(service).wf(),
    ensures
        final(service).wf(),
        final(service).configs() == old(service).configs(),
        match object_key_error(key@) {
            Some(e) => (r matches Err((c, b)) && is_bad_request(
                c,
                b,
                "Invalid object key: "@ + e.message(),
            )) && *final(service) == *old(service),
            None => match version_id_error(version_id@) {
                Some(e) => (r matches Err((c, b)) && is_bad_request(
                    c,
                    b,
                    "Invalid version ID: "@ + e.message(),
                )) && *final(service) == *old(service),
                None => match r {
                    Ok((c, b)) => c == 200 && b.message@ == "Version deleted successfully"@ && exists|
                        res: DeleteVersionResult,
                    | #[trigger] delete_outcome(
                        *old(service),
                        *final(service),
                        key@,
                        version_id@,
                        Ok(res),
                    ),
                    Err((c, b)) => exists|e: StorageError|
                        #[trigger] delete_outcome(
                            *old(service),
                            *final(service),
                            key@,
                            version_id@,
                            Err(e),
                        ) && reports_storage_error(c, b, e),
                },
            },
        },
{
    let object_key = match path_key(key, "Invalid object key: ") {
        Ok(k) => k,
        Err(e) => {
            return Err(e);
        },
    };
    let version = match path_version(version_id, "Invalid version ID: ") {
        Ok(v) => v,
        Err(e) => {
            return Err(e);
        },
    };
    match service.delete_version(DeleteVersionRequest { key: object_key, version_id: version }) {
        Ok(_) => Ok((200, SuccessResponseDto::new("Version deleted successfully"))),
        Err(e) => Err(storage_failure(e)),
    }
}

/// The listing entry of a version of the object.
pub open spec fn lists_version(dto: VersionedObjectDto, key: Seq<char>, info: ObjectVersionInfo) -> bool {
    &&& dto.key@ == key
    &&& dto.version_id@ == info.version_id@
    &&& dto.size == info.size
    &&& dto.last_modified == info.last_modified
    &&& opt_view(dto.etag) == opt_view(info.etag)
    &&& dto.is_latest == info.is_latest
}

/// The versions of the object as the repository lists them, at most `max_keys` of them when
/// given; the listing counts as truncated when it holds `max_keys` entries. Delete markers
/// and continuation markers are not tracked.
pub fn list_object_versions(service: &VersioningServiceImpl, key: String, params: &ListVersionsQuery) -> (r:
    Result<ListVersionsResponseDto, (u16, ErrorResponseDto)>)
    requires
        service.wf(),
    ensures
        match object_key_error(key@) {
            Some(e) => r matches Err((c, b)) && is_bad_request(c, b, "Invalid object key: "@ + e.message()),
            None => r matches Ok(resp) && exists|vs: Seq<ObjectVersionInfo>|
                #[trigger] service.spec_repository().lists_versions(key@, vs) && {
                    let n = match params.max_keys {
                        Some(m) => if m < vs.len() {
                            m as int
                        } else {
                            vs.len() as int
                        },
                        None => vs.len() as int,
                    };
                    &&& resp.versions@.len() == n
                    &&& forall|i: int|
                        0 <= i < n ==> lists_version(#[trigger] resp.versions@[i], key@, vs[i])
                    &&& resp.is_truncated == (params.max_keys matches Some(m) && n >= m)
                    &&& resp.delete_markers@.len() == 0
                    &&& resp.next_key_marker is None
                    &&& resp.next_version_id_marker is None
                },
        },
{
    let object_key = match path_key(key, "Invalid object key: ") {
        Ok(k) => k,
        Err(e) => {
            return Err(e);
        },
    };
    let list = match service.list_versions(&object_key) {
        Ok(l) => l,
        Err(e) => {
            return Err(storage_failure(e));
        },
    };
    let vs = &list.versions;
    let n = match params.max_keys {
        Some(m) => if m < vs.len() {
            m
        } else {
            vs.len()
        },
        None => vs.len(),
    };
    let mut out: Vec<VersionedObjectDto> = Vec::new();
    let mut i: usize = 0;
    while i < n
        invariant
            n <= vs@.len(),
            i <= n,
            out@.len() == i,
            forall|j: int| 0 <= j < i ==> lists_version(#[trigger] out@[j], key@, vs@[j]),
            object_key@ == key@,
        decreases n - i,
    {
        let info = &vs[i];
        out.push(
            VersionedObjectDto {
                key: String::from_str(object_key.as_str()),
                version_id: String::from_str(info.version_id.as_str()),
                size: info.size,
                last_modified: info.last_modified,
                etag: clone_opt_string(&info.etag),
                is_latest: info.is_latest,
            },
        );
        i = i + 1;
    }
    let is_truncated = match params.max_keys {
        Some(m) => n >= m,
        None => false,
    };
    Ok(
        ListVersionsResponseDto {
            versions: out,
            delete_markers: Vec::new(),
            is_truncated,
            next_key_marker: None,
            next_version_id_marker: None,
        },
    )
}

/// Copies a version of one object as a new version of another.
pub fn copy_versioned_object(
    service: &mut VersioningServiceImpl,
    source_key: String,
    source_version_id: String,
    dest_key: String,
) -> (r: Result<VersionCopiedDto, (u16, ErrorResponseDto)>)
    requires
        old(service).wf(),
    ensures
        final(service).wf(),
        final(service).configs() == old(service).configs(),
        final(service).spec_repository() == old(service).spec_repository(),
        match object_key_error(source_key@) {
            Some(e) => r matches Err((c, b)) && is_bad_request(c, b, "Invalid source key: "@ + e.message()),
            None => match version_id_error(source_version_id@) {
                Some(e) => r matches Err((c, b)) && is_bad_request(
                    c,
                    b,
                    "Invalid source version ID: "@ + e.message(),
                ),
                None => match object_key_error(dest_key@) {
                    Some(e) => r matches Err((c, b)) && is_bad_request(
                        c,
                        b,
                        "Invalid destination key: "@ + e.message(),
                    ),
                    None => copy_answer(
                        old(service).spec_store().contents(),
                        source_key@,
                        source_version_id@,
                        dest_key@,
                        r is Ok,
                    ),
                },
            },
        },
        match r {
            Ok(dto) => {
                let src = object_path(versioned_path_spec(source_key@, source_version_id@));
                &&& dto.message@ == "Version copied successfully"@
                &&& dto.source_key@ == source_key@
                &&& dto.source_version_id@ == source_version_id@
                &&& dto.destination_key@ == dest_key@
                &&& old(service).spec_store().contents().dom().contains(src)
                &&& final(service).spec_store().contents() == old(service).spec_store().contents().insert(
                    object_path(versioned_path_spec(dest_key@, dto.new_version_id@)),
                    old(service).spec_store().contents()[src],
                )
            },
            Err(_) => final(service).spec_store().contents() == old(service).spec_store().contents(),
        },
{
    let source = match path_key(source_key, "Invalid source key: ") {
        Ok(k) => k,
        Err(e) => {
            return Err(e);
        },
    };
    let version = match path_version(source_version_id, "Invalid source version ID: ") {
        Ok(v) => v,
        Err(e) => {
            return Err(e);
        },
    };
    let destination = match path_key(dest_key, "Invalid destination key: ") {
        Ok(k) => k,
        Err(e) => {
            return Err(e);
        },
    };
    match service.copy_version(&source, &version, &destination) {
        Ok(new_version) => Ok(
            VersionCopiedDto {
                message: String::from_str("Version copied successfully"),
                source_key: String::from_str(source.as_str()),
                source_version_id: String::from_str(version.as_str()),
                destination_key: String::from_str(destination.as_str()),
                new_version_id: String::from_str(new_version.as_str()),
            },
        ),
        Err(e) => Err(storage_failure(e)),
    }
}

/// Whether the store holds the version: its headers when it does, 404 when it does not.
pub fn head_versioned_object(service: &VersioningServiceImpl, key: String, version_id: String) -> (r:
    Result<VersionHead, (u16, ErrorResponseDto)>)
    requires
        service.wf(),
    ensures
        match object_key_error(key@) {
            Some(e) => r matches Err((c, b)) && is_bad_request(c, b, "Invalid object key: "@ + e.message()),
            None => match version_id_error(version_id@) {
                Some(e) => r matches Err((c, b)) && is_bad_request(
                    c,
                    b,
                    "Invalid version ID: "@ + e.message(),
                ),
                None => match crate::store::versioned_key_error(
                    key@,
                    version_id@,
                    "Invalid versioned key: "@,
                ) {
                    Some(e) => r matches Err((c, b)) && c == 400 && b.message@ == e.message(),
                    None => if service.spec_store().contents().dom().contains(
                        object_path(versioned_path_spec(key@, version_id@)),
                    ) {
                        r matches Ok(h) && h.version_id@ == version_id@ && h.content_type@
                            == "application/octet-stream"@
                    } else {
                        r matches Err((c, b)) && c == 404 && b.error@ == "BadRequest"@ && b.message@
                            == "Version not found"@
                    },
                },
            },
        },
{
    let object_key = match path_key(key, "Invalid object key: ") {
        Ok(k) => k,
        Err(e) => {
            return Err(e);
        },
    };
    let version = match path_version(version_id, "Invalid version ID: ") {
        Ok(v) => v,
        Err(e) => {
            return Err(e);
        },
    };
    let exists = match service.version_exists(&object_key, &version) {
        Ok(b) => b,
        Err(e) => {
            return Err(storage_failure(e));
        },
    };
    if !exists {
        return Err((404, ErrorResponseDto::bad_request("Version not found")));
    }
    Ok(
        VersionHead {
            version_id: String::from_str(version.as_str()),
            content_type: String::from_str("application/octet-stream"),
        },
    )
}

/// Restores a version as the object's newest: copies it as a new version of the same
/// object.
pub fn restore_version(service: &mut VersioningServiceImpl, key: String, version_id: String) -> (r:
    Result<VersionRestoredDto, (u16, ErrorResponseDto)>)
    requires
        old(service).wf(),
    ensures
        final(service).wf(),
        final(service).configs() == old(service).configs(),
        final(service).spec_repository() == old(service).spec_repository(),
        match object_key_error(key@) {
            Some(e) => r matches Err((c, b)) && is_bad_request(c, b, "Invalid object key: "@ + e.message()),
            None => match version_id_error(version_id@) {
                Some(e) => r matches Err((c, b)) && is_bad_request(
                    c,
                    b,
                    "Invalid version ID: "@ + e.message(),
                ),
                None => copy_answer(old(service).spec_store().contents(), key@, version_id@, key@, r is Ok),
            },
        },
        match r {
            Ok(dto) => {
                let src = object_path(versioned_path_spec(key@, version_id@));
                &&& dto.message@ == "Version restored successfully"@
                &&& dto.key@ == key@
                &&& dto.restored_version_id@ == version_id@
                &&& old(service).spec_store().contents().dom().contains(src)
                &&& final(service).spec_store().contents() == old(service).spec_store().contents().insert(
                    object_path(versioned_path_spec(key@, dto.new_version_id@)),
                    old(service).spec_store().contents()[src],
                )
            },
            Err(_) => final(service).spec_store().contents() == old(service).spec_store().contents(),
        },
{
    let key_text = key.clone();
    let object_key = match path_key(key, "Invalid object key: ") {
        Ok(k) => k,
        Err(e) => {
            return Err(e);
        },
    };
    let version = match path_version(version_id, "Invalid version ID: ") {
        Ok(v) => v,
        Err(e) => {
            return Err(e);
        },
    };
    match service.copy_version(&object_key, &version, &object_key) {
        Ok(new_version) => Ok(
            VersionRestoredDto {
                message: String::from_str("Version restored successfully"),
                key: key_text,
                restored_version_id: String::from_str(version.as_str()),
                new_version_id: String::from_str(new_version.as_str()),
            },
        ),
        Err(e) => Err(storage_failure(e)),
    }
}

} // verus!
