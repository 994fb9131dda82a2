use vstd::prelude::*;
use vstd::string::*;

use crate::tags::TagMap;
use crate::text::{
    chars_of, contains_seq, has_prefix, slice_contains, slice_starts_with, split_on,
    string_from_subrange, str_eq,
};
use crate::value_objects::split_chars;

verus! {

/// HTTP methods that the storage middleware tells apart.
#[derive(Debug, Clone, Copy, PartialEq, Eq, Structural)]
pub enum HttpMethod {
    Get,
    Put,
    Post,
    Delete,
    Other,
}

/// What the storage middleware does with a request.
#[derive(Debug, PartialEq)]
pub enum Route {
    ListVersions { bucket: String, key: String },
    DeleteVersion { bucket: String, key: String, version: String },
    GetVersion { bucket: String, key: String, version: String },
    GetLifecycle { bucket: String },
    PutLifecycle { bucket: String },
    GetObject { bucket: String, key: String },
    PutObject { bucket: String, key: String },
    DeleteObject { bucket: String, key: String },
    /// Not a storage request the middleware handles: the next service takes it.
    PassThrough,
}

/// A plain model of [`Route`].
pub enum RouteView {
    ListVersions { bucket: Seq<char>, key: Seq<char> },
    DeleteVersion { bucket: Seq<char>, key: Seq<char>, version: Seq<char> },
    GetVersion { bucket: Seq<char>, key: Seq<char>, version: Seq<char> },
    GetLifecycle { bucket: Seq<char> },
    PutLifecycle { bucket: Seq<char> },
    GetObject { bucket: Seq<char>, key: Seq<char> },
    PutObject { bucket: Seq<char>, key: Seq<char> },
    DeleteObject { bucket: Seq<char>, key: Seq<char> },
    PassThrough,
}

impl View for Route {
    type V = RouteView;

    open spec fn view(&self) -> RouteView {
        match self {
            Route::ListVersions { bucket, key } => RouteView::ListVersions {
                bucket: bucket@,
                key: key@,
            },
            Route::DeleteVersion { bucket, key, version } => RouteView::DeleteVersion {
                bucket: bucket@,
                key: key@,
                version: version@,
            },
            Route::GetVersion { bucket, key, version } => RouteView::GetVersion {
                bucket: bucket@,
                key: key@,
                version: version@,
            },
            Route::GetLifecycle { bucket } => RouteView::GetLifecycle { bucket: bucket@ },
            Route::PutLifecycle { bucket } => RouteView::PutLifecycle { bucket: bucket@ },
            Route::GetObject { bucket, key } => RouteView::GetObject { bucket: bucket@, key: key@ },
            Route::PutObject { bucket, key } => RouteView::PutObject { bucket: bucket@, key: key@ },
            Route::DeleteObject { bucket, key } => RouteView::DeleteObject {
                bucket: bucket@,
                key: key@,
            },
            Route::PassThrough => RouteView::PassThrough,
        }
    }
}

/// The route of a request with this method and path: paths under `/storage/` split on `/`
/// into bucket and further parts. Checked in order: a `GET` whose path contains `/versions`
/// lists versions (`bucket/versions/key`); a `DELETE` or `GET` whose path contains
/// `/version/` deletes or reads a version (`bucket/version/key/id`); a path containing
/// `/lifecycle` reads (`GET`) or sets (`PUT`) the configuration (`bucket/lifecycle`);
/// otherwise `GET`, `PUT`/`POST` and `DELETE` on `bucket/key` read, store and delete an
/// object. A request that matches a check but not its shape, or matches none, passes
/// through.
pub open spec fn route_of(method: HttpMethod, path: Seq<char>) -> RouteView {
    let root = "/storage/"@;
    if !has_prefix(path, root) {
        RouteView::PassThrough
    } else {
        let parts = split_on(path.subrange(root.len() as int, path.len() as int), '/');
        if contains_seq(path, "/versions"@) && method == HttpMethod::Get {
            if parts.len() >= 3 && parts[1] == "versions"@ {
                RouteView::ListVersions { bucket: parts[0], key: parts[2] }
            } else {
                RouteView::PassThrough
            }
        } else if contains_seq(path, "/version/"@) && method == HttpMethod::Delete {
            if parts.len() >= 4 && parts[1] == "version"@ {
                RouteView::DeleteVersion { bucket: parts[0], key: parts[2], version: parts[3] }
            } else {
                RouteView::PassThrough
            }
        } else if contains_seq(path, "/version/"@) && method == HttpMethod::Get {
            if parts.len() >= 4 && parts[1] == "version"@ {
                RouteView::GetVersion { bucket: parts[0], key: parts[2], version: parts[3] }
            } else {
                RouteView::PassThrough
            }
        } else if contains_seq(path, "/lifecycle"@) {
            if parts.len() >= 2 && parts[1] == "lifecycle"@ {
                if method == HttpMethod::Get {
                    RouteView::GetLifecycle { bucket: parts[0] }
                } else if method == HttpMethod::Put {
                    RouteView::PutLifecycle { bucket: parts[0] }
                } else {
                    RouteView::PassThrough
                }
            } else {
                RouteView::PassThrough
            }
        } else if method == HttpMethod::Get {
            if parts.len() >= 2 {
                RouteView::GetObject { bucket: parts[0], key: parts[1] }
            } else {
                RouteView::PassThrough
            }
        } else if method == HttpMethod::Put || method == HttpMethod::Post {
            if parts.len() >= 2 {
                RouteView::PutObject { bucket: parts[0], key: parts[1] }
            } else {
                RouteView::PassThrough
            }
        } else if method == HttpMethod::Delete {
            if parts.len() >= 2 {
                RouteView::DeleteObject { bucket: parts[0], key: parts[1] }
            } else {
                RouteView::PassThrough
            }
        } else {
            RouteView::PassThrough
        }
    }
}

/// Whether the string slice holds the characters of the pattern somewhere.
fn chars_contain(chars: &Vec<char>, pattern: &str) -> (r: bool)
    ensures
        r == contains_seq(chars@, pattern@),
{
    let p = chars_of(pattern);
    slice_contains(chars.as_slice(), p.as_slice())
}

/// The string of part `i`.
fn part_string(parts: &Vec<Vec<char>>, i: usize) -> (r: String)
    requires
        i < parts@.len(),
    ensures
        r@ == parts@[i as int]@,
{
    let p = &parts[i];
    let r = string_from_subrange(p.as_slice(), 0, p.len());
    assert(p@.subrange(0, p@.len() as int) =~= p@);
    r
}

/// Whether part `i` equals the word.
fn part_is(parts: &Vec<Vec<char>>, i: usize, word: &str) -> (r: bool)
    requires
        i < parts@.len(),
    ensures
        r == (parts@[i as int]@ == word@),
{
    let s = part_string(parts, i);
    str_eq(s.as_str(), word)
}

/// The route of a request (see [`route_of`]).
pub fn route_request(method: HttpMethod, path: &str) -> (r: Route)
    ensures
        r@ == route_of(method, path@),
{
    let chars = chars_of(path);
    let root = chars_of("/storage/");
    if !slice_starts_with(chars.as_slice(), root.as_slice()) {
        return Route::PassThrough;
    }
    let ghost rest_view = path@.subrange("/storage/"@.len() as int, path@.len() as int);
    let rest: Vec<char> = chars_of(string_from_subrange(chars.as_slice(), root.len(), chars.len()).as_str());
    assert(rest@ =~= rest_view);
    let parts = split_chars(rest.as_slice(), '/');
    let ghost sp = split_on(rest_view, '/');
    assert(parts@.len() == sp.len());
    assert(forall|k: int| 0 <= k < parts@.len() ==> (#[trigger] parts@[k])@ == sp[k]);
    if chars_contain(&chars, "/versions") && method == HttpMethod::Get {
        if parts.len() >= 3 && part_is(&parts, 1, "versions") {
            return Route::ListVersions { bucket: part_string(&parts, 0), key: part_string(&parts, 2) };
        }
        return Route::PassThrough;
    }
    if chars_contain(&chars, "/version/") && method == HttpMethod::Delete {
        if parts.len() >= 4 && part_is(&parts, 1, "version") {
            return Route::DeleteVersion {
                bucket: part_string(&parts, 0),
                key: part_string(&parts, 2),
                version: part_string(&parts, 3),
            };
        }
        return Route::PassThrough;
    }
    if chars_contain(&chars, "/version/") && method == HttpMethod::Get {
        if parts.len() >= 4 && part_is(&parts, 1, "version") {
            return Route::GetVersion {
                bucket: part_string(&parts, 0),
                key: part_string(&parts, 2),
                version: part_string(&parts, 3),
            };
        }
        return Route::PassThrough;
    }
    if chars_contain(&chars, "/lifecycle") {
        if parts.len() >= 2 && part_is(&parts, 1, "lifecycle") {
            if method == HttpMethod::Get {
                return Route::GetLifecycle { bucket: part_string(&parts, 0) };
            } else if method == HttpMethod::Put {
                return Route::PutLifecycle { bucket: part_string(&parts, 0) };
            }
        }
        return Route::PassThrough;
    }
    if method == HttpMethod::Get {
        if parts.len() >= 2 {
            return Route::GetObject { bucket: part_string(&parts, 0), key: part_string(&parts, 1) };
        }
        return Route::PassThrough;
    }
    if method == HttpMethod::Put || method == HttpMethod::Post {
        if parts.len() >= 2 {
            return Route::PutObject { bucket: part_string(&parts, 0), key: part_string(&parts, 1) };
        }
        return Route::PassThrough;
    }
    if method == HttpMethod::Delete {
        if parts.len() >= 2 {
            return Route::DeleteObject {
                bucket: part_string(&parts, 0),
                key: part_string(&parts, 1),
            };
        }
        return Route::PassThrough;
    }
    Route::PassThrough
}

/// The string with every leading copy of the (non-empty) pattern removed, as
/// `str::trim_start_matches` does.
pub open spec fn trim_start(s: Seq<char>, p: Seq<char>) -> Seq<char>
    decreases s.len(),
{
    if p.len() > 0 && has_prefix(s, p) {
        trim_start(s.subrange(p.len() as int, s.len() as int), p)
    } else {
        s
    }
}

/// `str::trim_start_matches` with a non-empty pattern.
fn trim_start_exec(s: &[char], p: &[char]) -> (r: Vec<char>)
    requires
        p@.len() > 0,
    ensures
        r@ == trim_start(s@, p@),
{
    let mut start: usize = 0;
    assert(s@.subrange(0, s@.len() as int) =~= s@);
    let n = s.len();
    let m = p.len();
    loop
        invariant
            n == s@.len(),
            m == p@.len(),
            start <= s@.len(),
            p@.len() > 0,
            trim_start(s@.subrange(start as int, s@.len() as int), p@) == trim_start(s@, p@),
        ensures
            start <= s@.len(),
            !crate::text::occurs_at(s@, p@, start as int),
            trim_start(s@.subrange(start as int, s@.len() as int), p@) == trim_start(s@, p@),
        decreases s@.len() - start,
    {
        let found = crate::text::slice_occurs_at(s, p, start);
        if !found {
            break;
        }
        assert(start + p@.len() <= s@.len());
        let ghost rest = s@.subrange(start as int, s@.len() as int);
        assert(rest.subrange(0, p@.len() as int) =~= s@.subrange(start as int, start + p@.len()));
        assert(rest.subrange(p@.len() as int, rest.len() as int) =~= s@.subrange(
            start + p@.len(),
            s@.len() as int,
        ));
        start = start + m;
    }
    proof {
        let rest = s@.subrange(start as int, s@.len() as int);
        if has_prefix(rest, p@) {
            assert(rest.subrange(0, p@.len() as int) =~= s@.subrange(start as int, start + p@.len()));
        }
    }
    let mut r: Vec<char> = Vec::new();
    let mut i: usize = start;
    while i < s.len()
        invariant
            start <= i <= s@.len(),
            r@ == s@.subrange(start as int, i as int),
        decreases s@.len() - i,
    {
        r.push(s[i]);
        assert(r@ =~= s@.subrange(start as int, i + 1));
        i = i + 1;
    }
    r
}

/// The metadata that the `x-amz-meta-` headers carry, later headers replacing earlier ones
/// (headers without a readable value are skipped).
pub open spec fn header_metadata(headers: Seq<(String, Option<String>)>) -> Map<Seq<char>, Seq<char>>
    decreases headers.len(),
{
    if headers.len() == 0 {
        Map::empty()
    } else {
        let (name, value) = headers.last();
        let before = header_metadata(headers.drop_last());
        if has_prefix(name@, "x-amz-meta-"@) && value is Some {
            before.insert(trim_start(name@, "x-amz-meta-"@), value->0@)
        } else {
            before
        }
    }
}

/// The metadata of a request: its `x-amz-meta-` headers, then `content-type` and `etag`
/// when present.
pub open spec fn request_metadata(
    headers: Seq<(String, Option<String>)>,
    content_type: Option<Seq<char>>,
    etag: Option<Seq<char>>,
) -> Map<Seq<char>, Seq<char>> {
    let m = header_metadata(headers);
    let m2 = match content_type {
        Some(v) => m.insert("content-type"@, v),
        None => m,
    };
    match etag {
        Some(v) => m2.insert("etag"@, v),
        None => m2,
    }
}

/// The metadata of a request's headers (name and, when readable, value), with the first
/// `content-type` and `etag` values; `None` when there is none.
pub fn extract_metadata_from_headers(
    headers: &Vec<(String, Option<String>)>,
    content_type: Option<&str>,
    etag: Option<&str>,
) -> (r: Option<TagMap>)
    ensures
        match r {
            Some(m) => m.wf() && m@ == request_metadata(
                headers@,
                match content_type {
                    Some(v) => Some(v@),
                    None => None,
                },
                match etag {
                    Some(v) => Some(v@),
                    None => None,
                },
            ) && m@.len() > 0,
            None => request_metadata(
                headers@,
                match content_type {
                    Some(v) => Some(v@),
                    None => None,
                },
                match etag {
                    Some(v) => Some(v@),
                    None => None,
                },
            ).len() == 0,
        },
{
    let mut metadata = TagMap::new();
    let prefix = chars_of("x-amz-meta-");
    proof {
        reveal_strlit("x-amz-meta-");
    }
    let mut i: usize = 0;
    assert(headers@.take(0) =~= Seq::<(String, Option<String>)>::empty());
    while i < headers.len()
        invariant
            i <= headers@.len(),
            prefix@ == "x-amz-meta-"@,
            prefix@.len() > 0,
            metadata.wf(),
            metadata@ == header_metadata(headers@.take(i as int)),
        decreases headers@.len() - i,
    {
        let ghost t = headers@.take(i + 1);
        assert(t.drop_last() =~= headers@.take(i as int));
        assert(t.last() == headers@[i as int]);
        let name = chars_of(headers[i].0.as_str());
        if slice_starts_with(name.as_slice(), prefix.as_slice()) {
            match &headers[i].1 {
                Some(v) => {
                    let key = trim_start_exec(name.as_slice(), prefix.as_slice());
                    let key_string = crate::text::string_from_chars(key.as_slice());
                    metadata.insert(key_string, v.clone());
                },
                None => {},
            }
        }
        i = i + 1;
    }
    assert(headers@.take(headers@.len() as int) =~= headers@);
    if let Some(v) = content_type {
        metadata.insert(String::from_str("content-type"), String::from_str(v));
    }
    if let Some(v) = etag {
        metadata.insert(String::from_str("etag"), String::from_str(v));
    }
    proof {
        metadata.lemma_pairs();
    }
    if metadata.is_empty() {
        None
    } else {
        Some(metadata)
    }
}

} // verus!
