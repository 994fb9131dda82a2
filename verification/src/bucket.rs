use vstd::prelude::*;

use crate::text::{
    chars_of, concat_str, decimal, is_digit, is_lower, join_with, push_decimal, push_str,
    str_eq,
};
use crate::value_objects::{bucket_edge_char, byte_len};

verus! {

/// Why a bucket operation against an S3-compatible service failed.
#[derive(Debug)]
pub enum BucketError {
    InvalidBucketName(String),
    BucketAlreadyExists(String),
    RegionMismatch(String, String),
    HttpError(String),
    XmlError(String),
    SigningError(String),
    ServiceError { status_code: u16, message: String },
    IoError(String),
    Unauthorized,
}

impl BucketError {
    /// The text of the error.
    pub open spec fn spec_message(&self) -> Seq<char> {
        match self {
            BucketError::InvalidBucketName(m) => "Invalid bucket name: "@ + m@,
            BucketError::BucketAlreadyExists(m) => "Bucket already exists: "@ + m@,
            BucketError::RegionMismatch(expected, got) => "Region mismatch: expected "@ + expected@
                + ", got "@ + got@,
            BucketError::HttpError(m) => "HTTP error: "@ + m@,
            BucketError::XmlError(m) => "XML error: "@ + m@,
            BucketError::SigningError(m) => "Request signing error: "@ + m@,
            BucketError::ServiceError { status_code, message } => "Service error: "@ + decimal(
                *status_code as nat,
            ) + " - "@ + message@,
            BucketError::IoError(m) => "I/O error: "@ + m@,
            BucketError::Unauthorized => "Unauthorized"@,
        }
    }

    /// The text of the error.
    pub fn message(&self) -> (r: String)
        ensures
            r@ == self.spec_message(),
    {
        match self {
            BucketError::InvalidBucketName(m) => concat_str("Invalid bucket name: ", m.as_str()),
            BucketError::BucketAlreadyExists(m) => concat_str(
                "Bucket already exists: ",
                m.as_str(),
            ),
            BucketError::RegionMismatch(expected, got) => {
                let mut s = concat_str("Region mismatch: expected ", expected.as_str());
                push_str(&mut s, ", got ");
                push_str(&mut s, got.as_str());
                s
            },
            BucketError::HttpError(m) => concat_str("HTTP error: ", m.as_str()),
            BucketError::XmlError(m) => concat_str("XML error: ", m.as_str()),
            BucketError::SigningError(m) => concat_str("Request signing error: ", m.as_str()),
            BucketError::ServiceError { status_code, message } => {
                let mut s = String::from_str("Service error: ");
                push_decimal(&mut s, *status_code as u64);
                push_str(&mut s, " - ");
                push_str(&mut s, message.as_str());
                s
            },
            BucketError::IoError(m) => concat_str("I/O error: ", m.as_str()),
            BucketError::Unauthorized => String::from_str("Unauthorized"),
        }
    }
}

/// A character that may appear in an S3 bucket name.
pub open spec fn s3_bucket_char(c: char) -> bool {
    is_lower(c) || is_digit(c) || c == '-' || c == '.'
}

/// Why `s` is not an acceptable S3 bucket name, checked in order; `None` when it is one.
pub open spec fn bucket_name_problem(s: Seq<char>) -> Option<Seq<char>> {
    let n = byte_len(s);
    if s.len() == 0 || n > 63 || n < 3 {
        Some("Bucket name must be between 3 and 63 characters"@)
    } else if !bucket_edge_char(s[0]) {
        Some("Bucket name must start with a lowercase letter or number"@)
    } else if !bucket_edge_char(s.last()) {
        Some("Bucket name must end with a lowercase letter or number"@)
    } else if exists|i: int| 0 <= i < s.len() && !s3_bucket_char(#[trigger] s[i]) {
        Some("Bucket name can only contain lowercase letters, numbers, hyphens, and dots"@)
    } else {
        None
    }
}

/// Checks a bucket name against the S3 naming rules.
pub fn validate_bucket_name(name: &str) -> (r: Result<(), BucketError>)
    ensures
        match bucket_name_problem(name@) {
            Some(m) => r matches Err(BucketError::InvalidBucketName(x)) && x@ == m,
            None => r is Ok,
        },
{
    let chars = chars_of(name);
    let n = name.len();
    if chars.len() == 0 || n > 63 || n < 3 {
        return Err(
            BucketError::InvalidBucketName(
                String::from_str("Bucket name must be between 3 and 63 characters"),
            ),
        );
    }
    let first = chars[0];
    if !(('a' <= first && first <= 'z') || ('0' <= first && first <= '9')) {
        return Err(
            BucketError::InvalidBucketName(
                String::from_str("Bucket name must start with a lowercase letter or number"),
            ),
        );
    }
    let last = chars[chars.len() - 1];
    if !(('a' <= last && last <= 'z') || ('0' <= last && last <= '9')) {
        return Err(
            BucketError::InvalidBucketName(
                String::from_str("Bucket name must end with a lowercase letter or number"),
            ),
        );
    }
    let mut i: usize = 0;
    while i < chars.len()
        invariant
            i <= chars.len(),
            chars@ == name@,
            chars@.len() > 0,
            3 <= byte_len(name@) <= 63,
            bucket_edge_char(chars@[0]),
            bucket_edge_char(chars@.last()),
            forall|j: int| 0 <= j < i ==> s3_bucket_char(#[trigger] chars@[j]),
        decreases chars.len() - i,
    {
        let c = chars[i];
        if !(('a' <= c && c <= 'z') || ('0' <= c && c <= '9') || c == '-' || c == '.') {
            assert(!s3_bucket_char(name@[i as int]));
            return Err(
                BucketError::InvalidBucketName(
                    String::from_str(
                        "Bucket name can only contain lowercase letters, numbers, hyphens, and dots",
                    ),
                ),
            );
        }
        i = i + 1;
    }
    Ok(())
}

/// The region assumed when none is given.
pub open spec fn default_region() -> Seq<char> {
    "us-east-1"@
}

/// Connection settings of an S3-compatible service.
#[derive(Debug)]
pub struct S3Client {
    endpoint: String,
    region: String,
    access_key: String,
    secret_key: String,
    secure: bool,
    session_token: Option<String>,
}

impl S3Client {
    /// The endpoint, without scheme.
    pub closed spec fn spec_endpoint(&self) -> Seq<char> {
        self.endpoint@
    }

    /// The region requests are made in.
    pub closed spec fn spec_region(&self) -> Seq<char> {
        self.region@
    }

    /// Whether requests go over TLS.
    pub closed spec fn spec_secure(&self) -> bool {
        self.secure
    }

    /// Settings for the given service; the region defaults to `us-east-1`.
    pub fn new(
        endpoint: String,
        region: Option<String>,
        access_key: String,
        secret_key: String,
        secure: bool,
        session_token: Option<String>,
    ) -> (r: Self)
        ensures
            r.spec_endpoint() == endpoint@,
            r.spec_region() == (match region {
                Some(x) => x@,
                None => default_region(),
            }),
            r.spec_secure() == secure,
    {
        let region = match region {
            Some(x) => x,
            None => String::from_str("us-east-1"),
        };
        S3Client { endpoint, region, access_key, secret_key, secure, session_token }
    }

    /// The URL scheme requests use.
    pub fn get_scheme(&self) -> (r: &'static str)
        ensures
            r@ == (if self.spec_secure() {
                "https"@
            } else {
                "http"@
            }),
    {
        if self.secure {
            "https"
        } else {
            "http"
        }
    }

    /// The URL every request starts with.
    pub open spec fn spec_base_url(&self) -> Seq<char> {
        (if self.spec_secure() {
            "https"@
        } else {
            "http"@
        }) + "://"@ + self.spec_endpoint()
    }

    /// The URL every request starts with.
    pub fn get_base_url(&self) -> (r: String)
        ensures
            r@ == self.spec_base_url(),
    {
        let mut s = String::from_str(self.get_scheme());
        push_str(&mut s, "://");
        push_str(&mut s, self.endpoint.as_str());
        s
    }

    /// The region requests are made in.
    pub fn get_region(&self) -> (r: &str)
        ensures
            r@ == self.spec_region(),
    {
        self.region.as_str()
    }

    /// The URL of a bucket, followed by `suffix` (`""`, `"?lifecycle"`, `"?versioning"`).
    pub fn bucket_url(&self, name: &str, suffix: &str) -> (r: String)
        ensures
            r@ == self.spec_base_url() + "/"@ + name@ + suffix@,
    {
        let mut s = self.get_base_url();
        push_str(&mut s, "/");
        push_str(&mut s, name);
        push_str(&mut s, suffix);
        s
    }
}

/// The request methods the client can send.
#[derive(Debug, Clone, Copy, PartialEq, Eq, Structural)]
pub enum RequestMethod {
    Get,
    Put,
    Post,
    Delete,
}

/// The method named by `m`, among those the client can send.
pub open spec fn method_named(m: Seq<char>) -> Option<RequestMethod> {
    if m == "GET"@ {
        Some(RequestMethod::Get)
    } else if m == "PUT"@ {
        Some(RequestMethod::Put)
    } else if m == "POST"@ {
        Some(RequestMethod::Post)
    } else if m == "DELETE"@ {
        Some(RequestMethod::Delete)
    } else {
        None
    }
}

/// The method a request is sent with; any other method is refused with a 405.
pub fn request_method(method: &str) -> (r: Result<RequestMethod, BucketError>)
    ensures
        match method_named(method@) {
            Some(m) => r == Ok::<RequestMethod, BucketError>(m),
            None => r matches Err(BucketError::ServiceError { status_code, message })
                && status_code == 405 && message@ == "Method not allowed"@,
        },
{
    if str_eq(method, "GET") {
        Ok(RequestMethod::Get)
    } else if str_eq(method, "PUT") {
        Ok(RequestMethod::Put)
    } else if str_eq(method, "POST") {
        Ok(RequestMethod::Post)
    } else if str_eq(method, "DELETE") {
        Ok(RequestMethod::Delete)
    } else {
        Err(
            BucketError::ServiceError {
                status_code: 405,
                message: String::from_str("Method not allowed"),
            },
        )
    }
}

/// What a response's status says: a status outside 200..=299 is a service error.
pub fn check_status(status_code: u16) -> (r: Result<(), BucketError>)
    ensures
        200 <= status_code <= 299 ==> r is Ok,
        !(200 <= status_code <= 299) ==> (r matches Err(BucketError::ServiceError { status_code: c, message })
            && c == status_code && message@ == "Service error occurred"@),
{
    if 200 <= status_code && status_code <= 299 {
        Ok(())
    } else {
        Err(
            BucketError::ServiceError {
                status_code,
                message: String::from_str("Service error occurred"),
            },
        )
    }
}

/// Whether a bucket exists, from the outcome of asking for it: a 404 means it does not.
pub fn exists_from_outcome(outcome: Result<(), BucketError>) -> (r: Result<bool, BucketError>)
    ensures
        outcome is Ok ==> r == Ok::<bool, BucketError>(true),
        (outcome matches Err(BucketError::ServiceError { status_code, .. }) && status_code == 404)
            ==> r == Ok::<bool, BucketError>(false),
        (outcome is Err && !(outcome matches Err(BucketError::ServiceError { status_code, .. })
            && status_code == 404)) ==> r == match outcome {
            Ok(_) => Ok::<bool, BucketError>(true),
            Err(e) => Err::<bool, BucketError>(e),
        },
{
    match outcome {
        Ok(_) => Ok(true),
        Err(BucketError::ServiceError { status_code, message }) => {
            if status_code == 404 {
                Ok(false)
            } else {
                Err(BucketError::ServiceError { status_code, message })
            }
        },
        Err(e) => Err(e),
    }
}

/// Options for creating a bucket. Extra headers and query parameters are name/value pairs.
#[derive(Debug)]
pub struct BucketOptions {
    pub region: Option<String>,
    pub object_lock_enabled: bool,
    pub versioning_enabled: bool,
    pub extra_headers: Option<Vec<(String, String)>>,
    pub extra_query_params: Option<Vec<(String, String)>>,
}

impl Default for BucketOptions {
    fn default() -> (r: Self)
        ensures
            r.region is None,
            !r.object_lock_enabled,
            !r.versioning_enabled,
            r.extra_headers is None,
            r.extra_query_params is None,
    {
        BucketOptions {
            region: None,
            object_lock_enabled: false,
            versioning_enabled: false,
            extra_headers: None,
            extra_query_params: None,
        }
    }
}

/// The request that creates a bucket.
#[derive(Debug)]
pub struct CreateBucketRequest {
    pub url: String,
    pub body: String,
    pub headers: Vec<(String, String)>,
    pub enable_versioning: bool,
}

/// `name=value` for each pair.
pub open spec fn query_pairs(p: Seq<(String, String)>) -> Seq<Seq<char>> {
    p.map_values(|x: (String, String)| x.0@ + "="@ + x.1@)
}

/// The body that creates a bucket in `region`: empty in `us-east-1`.
pub open spec fn create_bucket_body(region: Seq<char>) -> Seq<char> {
    if region == default_region() {
        Seq::empty()
    } else {
        "<CreateBucketConfiguration><LocationConstraint>"@ + region
            + "</LocationConstraint></CreateBucketConfiguration>"@
    }
}

/// The headers of a create-bucket request: the host, the object-lock header when asked
/// for, then the extra headers.
pub open spec fn create_bucket_headers(endpoint: Seq<char>, lock: bool, extra: Seq<(Seq<char>, Seq<char>)>) -> Seq<(Seq<char>, Seq<char>)> {
    seq![("Host"@, endpoint)] + (if lock {
        seq![("x-amz-bucket-object-lock-enabled"@, "true"@)]
    } else {
        Seq::empty()
    }) + extra
}

/// Pairs taken as character sequences.
pub open spec fn pair_views(p: Seq<(String, String)>) -> Seq<(Seq<char>, Seq<char>)> {
    p.map_values(|x: (String, String)| (x.0@, x.1@))
}

fn pair_strings(p: &Vec<(String, String)>, sep: &str) -> (r: Vec<String>)
    ensures
        r@.len() == p@.len(),
        forall|i: int| 0 <= i < p@.len() ==> #[trigger] r@[i]@ == p@[i].0@ + sep@ + p@[i].1@,
{
    let mut r: Vec<String> = Vec::new();
    let mut i: usize = 0;
    while i < p.len()
        invariant
            i <= p.len(),
            r@.len() == i,
            forall|j: int| 0 <= j < i ==> #[trigger] r@[j]@ == p@[j].0@ + sep@ + p@[j].1@,
        decreases p.len() - i,
    {
        let mut s = p[i].0.clone();
        push_str(&mut s, sep);
        push_str(&mut s, p[i].1.as_str());
        r.push(s);
        i = i + 1;
    }
    r
}

fn clone_pairs(p: &Vec<(String, String)>) -> (r: Vec<(String, String)>)
    ensures
        pair_views(r@) == pair_views(p@),
{
    let mut r: Vec<(String, String)> = Vec::new();
    let mut i: usize = 0;
    while i < p.len()
        invariant
            i <= p.len(),
            r@.len() == i,
            forall|j: int| 0 <= j < i ==> (#[trigger] r@[j]).0@ == p@[j].0@ && r@[j].1@ == p@[j].1@,
        decreases p.len() - i,
    {
        let a = p[i].0.clone();
        let b = p[i].1.clone();
        r.push((a, b));
        i = i + 1;
    }
    assert(pair_views(r@) =~= pair_views(p@));
    r
}

impl S3Client {
    /// The request that creates bucket `name`, after checking the name and that the region
    /// asked for is the client's own.
    pub fn create_bucket_request(&self, name: &str, options: Option<BucketOptions>) -> (r: Result<
        CreateBucketRequest,
        BucketError,
    >)
        ensures
            bucket_name_problem(name@) is Some ==> (r matches Err(BucketError::InvalidBucketName(m))
                && m@ == bucket_name_problem(name@)->0),
            bucket_name_problem(name@) is None ==> {
                let region = match options {
                    Some(o) => match o.region {
                        Some(x) => x@,
                        None => self.spec_region(),
                    },
                    None => self.spec_region(),
                };
                if region != self.spec_region() {
                    r matches Err(BucketError::RegionMismatch(e, g)) && e@ == self.spec_region()
                        && g@ == region
                } else {
                    let lock = options is Some && options->0.object_lock_enabled;
                    let extra = if options is Some && options->0.extra_headers is Some {
                        pair_views(options->0.extra_headers->0@)
                    } else {
                        Seq::empty()
                    };
                    let url = self.spec_base_url() + "/"@ + name@;
                    r matches Ok(req) && req.body@ == create_bucket_body(region)
                        && pair_views(req.headers@) == create_bucket_headers(self.spec_endpoint(), lock, extra)
                        && req.enable_versioning == (options is Some && options->0.versioning_enabled)
                        && req.url@ == (if options is Some && options->0.extra_query_params is Some {
                            url + "?"@ + join_with(query_pairs(options->0.extra_query_params->0@), "&"@)
                        } else {
                            url
                        })
                }
            },
    {
        match validate_bucket_name(name) {
            Ok(()) => {},
            Err(e) => { return Err(e); },
        }
        let options = match options {
            Some(o) => o,
            None => BucketOptions::default(),
        };
        let region = match &options.region {
            Some(x) => x.clone(),
            None => String::from_str(self.get_region()),
        };
        if !str_eq(region.as_str(), self.get_region()) {
            return Err(BucketError::RegionMismatch(String::from_str(self.get_region()), region));
        }
        let mut headers: Vec<(String, String)> = Vec::new();
        headers.push((String::from_str("Host"), self.endpoint.clone()));
        if options.object_lock_enabled {
            headers.push(
                (String::from_str("x-amz-bucket-object-lock-enabled"), String::from_str("true")),
            );
        }
        let ghost before = headers@;
        let extra = match &options.extra_headers {
            Some(h) => clone_pairs(h),
            None => Vec::new(),
        };
        let mut extra = extra;
        let ghost ex = extra@;
        headers.append(&mut extra);
        proof {
            let lock = options.object_lock_enabled;
            assert(pair_views(before) =~= seq![("Host"@, self.spec_endpoint())] + (if lock {
                seq![("x-amz-bucket-object-lock-enabled"@, "true"@)]
            } else {
                Seq::empty()
            }));
            assert(pair_views(before + ex) =~= pair_views(before) + pair_views(ex));
        }
        let url = self.bucket_url(name, "");
        proof {
            reveal_strlit("");
            assert(url@ =~= self.spec_base_url() + "/"@ + name@);
        }
        let url = match &options.extra_query_params {
            Some(params) => {
                let parts = pair_strings(params, "=");
                proof {
                    assert(crate::text::string_views(parts@) =~= query_pairs(params@));
                }
                let query = crate::text::join_strings(&parts, "&");
                let mut u = url;
                push_str(&mut u, "?");
                push_str(&mut u, query.as_str());
                u
            },
            None => url,
        };
        let body = if str_eq(region.as_str(), "us-east-1") {
            String::new()
        } else {
            let mut b = String::from_str("<CreateBucketConfiguration><LocationConstraint>");
            push_str(&mut b, region.as_str());
            push_str(&mut b, "</LocationConstraint></CreateBucketConfiguration>");
            b
        };
        Ok(CreateBucketRequest { url, body, headers, enable_versioning: options.versioning_enabled })
    }
}

/// A request to send to an S3-compatible service: the method's name, the URL and the body.
#[derive(Debug)]
pub struct BucketRequest {
    pub method: String,
    pub url: String,
    pub body: String,
}

/// The request is `method` on the URL with the body.
pub open spec fn is_request(r: BucketRequest, method: Seq<char>, url: Seq<char>, body: Seq<char>) -> bool {
    r.method@ == method && r.url@ == url && r.body@ == body
}

/// The outcome of a request on a checked bucket name: the name's problem, or the request.
pub open spec fn checked_request(
    name: Seq<char>,
    r: Result<BucketRequest, BucketError>,
    method: Seq<char>,
    url: Seq<char>,
    body: Seq<char>,
) -> bool {
    match bucket_name_problem(name) {
        Some(m) => r matches Err(BucketError::InvalidBucketName(x)) && x@ == m,
        None => r matches Ok(q) && is_request(q, method, url, body),
    }
}

/// The body that turns versioning on.
pub open spec fn versioning_body() -> Seq<char> {
    "<VersioningConfiguration><Status>Enabled</Status></VersioningConfiguration>"@
}

/// Bucket operations on an S3-compatible service, each as the request that carries it out.
#[derive(Debug)]
pub struct S3BucketOperations {
    client: S3Client,
}

impl S3BucketOperations {
    /// The service the requests go to.
    pub closed spec fn spec_client(self) -> S3Client {
        self.client
    }

    /// Operations on the service of the client.
    pub fn new(client: S3Client) -> (r: Self)
        ensures
            r.spec_client() == client,
    {
        S3BucketOperations { client }
    }

    /// The client.
    pub fn client(&self) -> (r: &S3Client)
        ensures
            *r == self.spec_client(),
    {
        &self.client
    }

    /// A request on the checked bucket name.
    fn checked(&self, name: &str, method: &str, suffix: &str, body: &str) -> (r: Result<
        BucketRequest,
        BucketError,
    >)
        ensures
            checked_request(
                name@,
                r,
                method@,
                self.spec_client().spec_base_url() + "/"@ + name@ + suffix@,
                body@,
            ),
    {
        match validate_bucket_name(name) {
            Ok(()) => {},
            Err(e) => {
                return Err(e);
            },
        }
        Ok(
            BucketRequest {
                method: String::from_str(method),
                url: self.client.bucket_url(name, suffix),
                body: String::from_str(body),
            },
        )
    }

    /// Whether a bucket exists: a `HEAD` of the bucket (read with [`exists_from_outcome`]).
    pub fn bucket_exists_request(&self, name: &str) -> (r: Result<BucketRequest, BucketError>)
        ensures
            checked_request(
                name@,
                r,
                "HEAD"@,
                self.spec_client().spec_base_url() + "/"@ + name@,
                Seq::empty(),
            ),
    {
        proof {
            reveal_strlit("");
        }
        let r = self.checked(name, "HEAD", "", "");
        assert(self.spec_client().spec_base_url() + "/"@ + name@ + ""@ =~= self.spec_client().spec_base_url() + "/"@ + name@);
        assert(""@ =~= Seq::<char>::empty());
        r
    }

    /// Removing a bucket: a `DELETE` of the bucket.
    pub fn delete_bucket_request(&self, name: &str) -> (r: Result<BucketRequest, BucketError>)
        ensures
            checked_request(
                name@,
                r,
                "DELETE"@,
                self.spec_client().spec_base_url() + "/"@ + name@,
                Seq::empty(),
            ),
    {
        proof {
            reveal_strlit("");
        }
        let r = self.checked(name, "DELETE", "", "");
        assert(self.spec_client().spec_base_url() + "/"@ + name@ + ""@ =~= self.spec_client().spec_base_url() + "/"@ + name@);
        assert(""@ =~= Seq::<char>::empty());
        r
    }

    /// Listing the buckets: a `GET` of the service.
    pub fn list_buckets_request(&self) -> (r: BucketRequest)
        ensures
            is_request(r, "GET"@, self.spec_client().spec_base_url(), Seq::empty()),
    {
        BucketRequest {
            method: String::from_str("GET"),
            url: self.client.get_base_url(),
            body: String::new(),
        }
    }

    /// Setting a bucket's lifecycle configuration: a `PUT` of the bucket's lifecycle with the
    /// configuration's document.
    pub fn set_bucket_lifecycle_request(&self, name: &str, document: &str) -> (r: Result<
        BucketRequest,
        BucketError,
    >)
        ensures
            checked_request(
                name@,
                r,
                "PUT"@,
                self.spec_client().spec_base_url() + "/"@ + name@ + "?lifecycle"@,
                document@,
            ),
    {
        self.checked(name, "PUT", "?lifecycle", document)
    }

    /// Reading a bucket's lifecycle configuration: a `GET` of the bucket's lifecycle.
    pub fn get_bucket_lifecycle_request(&self, name: &str) -> (r: Result<BucketRequest, BucketError>)
        ensures
            checked_request(
                name@,
                r,
                "GET"@,
                self.spec_client().spec_base_url() + "/"@ + name@ + "?lifecycle"@,
                Seq::empty(),
            ),
    {
        proof {
            reveal_strlit("");
        }
        let r = self.checked(name, "GET", "?lifecycle", "");
        assert(""@ =~= Seq::<char>::empty());
        r
    }

    /// Turning versioning on for a bucket: a `PUT` of the bucket's versioning setting. The
    /// name is not checked.
    pub fn enable_bucket_versioning_request(&self, name: &str) -> (r: BucketRequest)
        ensures
            is_request(
                r,
                "PUT"@,
                self.spec_client().spec_base_url() + "/"@ + name@ + "?versioning"@,
                versioning_body(),
            ),
    {
        BucketRequest {
            method: String::from_str("PUT"),
            url: self.client.bucket_url(name, "?versioning"),
            body: String::from_str(
                "<VersioningConfiguration><Status>Enabled</Status></VersioningConfiguration>",
            ),
        }
    }
}

} // verus!
