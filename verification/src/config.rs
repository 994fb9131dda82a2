use vstd::prelude::*;
use crate::filter::opt_view;
use crate::models::clone_opt_string;
use crate::text::{concat_str, lower_eq, lower_equals, str_eq};

verus! {

/// Where object bytes are kept.
#[derive(Debug)]
pub enum StorageBackend {
    InMemory,
    S3 {
        bucket: String,
        region: String,
        access_key: Option<String>,
        secret_key: Option<String>,
    },
    MinIO {
        endpoint: String,
        bucket: String,
        access_key: String,
        secret_key: String,
        use_ssl: bool,
    },
}

/// A storage backend with its strings taken as character sequences.
pub enum StorageBackendView {
    InMemory,
    S3 {
        bucket: Seq<char>,
        region: Seq<char>,
        access_key: Option<Seq<char>>,
        secret_key: Option<Seq<char>>,
    },
    MinIO {
        endpoint: Seq<char>,
        bucket: Seq<char>,
        access_key: Seq<char>,
        secret_key: Seq<char>,
        use_ssl: bool,
    },
}

impl View for StorageBackend {
    type V = StorageBackendView;

    open spec fn view(&self) -> StorageBackendView {
        match self {
            StorageBackend::InMemory => StorageBackendView::InMemory,
            StorageBackend::S3 { bucket, region, access_key, secret_key } => StorageBackendView::S3 {
                bucket: bucket@,
                region: region@,
                access_key: opt_view(*access_key),
                secret_key: opt_view(*secret_key),
            },
            StorageBackend::MinIO { endpoint, bucket, access_key, secret_key, use_ssl } =>
                StorageBackendView::MinIO {
                endpoint: endpoint@,
                bucket: bucket@,
                access_key: access_key@,
                secret_key: secret_key@,
                use_ssl: *use_ssl,
            },
        }
    }
}

impl Clone for StorageBackend {
    fn clone(&self) -> (r: Self)
        ensures
            r@ == self@,
    {
        match self {
            StorageBackend::InMemory => StorageBackend::InMemory,
            StorageBackend::S3 { bucket, region, access_key, secret_key } => StorageBackend::S3 {
                bucket: bucket.clone(),
                region: region.clone(),
                access_key: clone_opt_string(access_key),
                secret_key: clone_opt_string(secret_key),
            },
            StorageBackend::MinIO { endpoint, bucket, access_key, secret_key, use_ssl } =>
                StorageBackend::MinIO {
                endpoint: endpoint.clone(),
                bucket: bucket.clone(),
                access_key: access_key.clone(),
                secret_key: secret_key.clone(),
                use_ssl: *use_ssl,
            },
        }
    }
}

/// Where object metadata and lifecycle rules are kept.
#[derive(Debug)]
pub enum RepositoryBackend {
    InMemory,
    Database { connection_string: String },
}

/// A repository backend with its strings taken as character sequences.
pub enum RepositoryBackendView {
    InMemory,
    Database { connection_string: Seq<char> },
}

impl View for RepositoryBackend {
    type V = RepositoryBackendView;

    open spec fn view(&self) -> RepositoryBackendView {
        match self {
            RepositoryBackend::InMemory => RepositoryBackendView::InMemory,
            RepositoryBackend::Database { connection_string } => RepositoryBackendView::Database {
                connection_string: connection_string@,
            },
        }
    }
}

impl Clone for RepositoryBackend {
    fn clone(&self) -> (r: Self)
        ensures
            r@ == self@,
    {
        match self {
            RepositoryBackend::InMemory => RepositoryBackend::InMemory,
            RepositoryBackend::Database { connection_string } => RepositoryBackend::Database {
                connection_string: connection_string.clone(),
            },
        }
    }
}

/// The backends the application is assembled from.
#[derive(Debug)]
pub struct AppConfig {
    pub storage_backend: StorageBackend,
    pub repository_backend: RepositoryBackend,
}

impl Clone for AppConfig {
    fn clone(&self) -> (r: Self)
        ensures
            r.storage_backend@ == self.storage_backend@,
            r.repository_backend@ == self.repository_backend@,
    {
        AppConfig {
            storage_backend: self.storage_backend.clone(),
            repository_backend: self.repository_backend.clone(),
        }
    }
}

impl Default for AppConfig {
    /// Everything kept in memory.
    fn default() -> (r: Self)
        ensures
            r.storage_backend@ == StorageBackendView::InMemory,
            r.repository_backend@ == RepositoryBackendView::InMemory,
    {
        AppConfig {
            storage_backend: StorageBackend::InMemory,
            repository_backend: RepositoryBackend::InMemory,
        }
    }
}

/// Collects the configuration the application is assembled from.
pub struct AppBuilder {
    config: AppConfig,
}

impl AppBuilder {
    /// The configuration collected so far.
    pub closed spec fn spec_config(self) -> AppConfig {
        self.config
    }

    /// A builder holding the default configuration.
    pub fn new() -> (r: Self)
        ensures
            r.spec_config().storage_backend@ == StorageBackendView::InMemory,
            r.spec_config().repository_backend@ == RepositoryBackendView::InMemory,
    {
        AppBuilder { config: AppConfig::default() }
    }

    /// Replaces the whole configuration.
    pub fn with_config(self, config: AppConfig) -> (r: Self)
        ensures
            r.spec_config() == config,
    {
        AppBuilder { config }
    }

    /// Replaces the storage backend, keeping the repository backend.
    pub fn with_storage_backend(self, backend: StorageBackend) -> (r: Self)
        ensures
            r.spec_config().storage_backend == backend,
            r.spec_config().repository_backend == self.spec_config().repository_backend,
    {
        let mut b = self;
        b.config.storage_backend = backend;
        b
    }

    /// Replaces the repository backend, keeping the storage backend.
    pub fn with_repository_backend(self, backend: RepositoryBackend) -> (r: Self)
        ensures
            r.spec_config().repository_backend == backend,
            r.spec_config().storage_backend == self.spec_config().storage_backend,
    {
        let mut b = self;
        b.config.repository_backend = backend;
        b
    }

    /// The configuration collected so far.
    pub fn config(&self) -> (r: &AppConfig)
        ensures
            *r == self.spec_config(),
    {
        &self.config
    }
}

impl Default for AppBuilder {
    fn default() -> (r: Self)
        ensures
            r.spec_config().storage_backend@ == StorageBackendView::InMemory,
            r.spec_config().repository_backend@ == RepositoryBackendView::InMemory,
    {
        AppBuilder::new()
    }
}

/// Why the application could not be assembled.
#[derive(Debug)]
pub enum AppError {
    Configuration { message: String },
    StorageInit { message: String },
    RepositoryInit { message: String },
    ServiceInit { message: String },
}

impl AppError {
    /// The text of the error.
    pub open spec fn spec_message(&self) -> Seq<char> {
        match self {
            AppError::Configuration { message } => "Configuration error: "@ + message@,
            AppError::StorageInit { message } => "Storage initialization error: "@ + message@,
            AppError::RepositoryInit { message } => "Repository initialization error: "@
                + message@,
            AppError::ServiceInit { message } => "Service initialization error: "@ + message@,
        }
    }

    /// The text of the error.
    pub fn message(&self) -> (r: String)
        ensures
            r@ == self.spec_message(),
    {
        match self {
            AppError::Configuration { message } => concat_str(
                "Configuration error: ",
                message.as_str(),
            ),
            AppError::StorageInit { message } => concat_str(
                "Storage initialization error: ",
                message.as_str(),
            ),
            AppError::RepositoryInit { message } => concat_str(
                "Repository initialization error: ",
                message.as_str(),
            ),
            AppError::ServiceInit { message } => concat_str(
                "Service initialization error: ",
                message.as_str(),
            ),
        }
    }
}

/// The server's command-line settings, after defaults and the environment were applied.
#[derive(Debug)]
pub struct CliArgs {
    pub port: u16,
    pub host: String,
    pub storage_backend: String,
    pub repository_backend: String,
    pub s3_endpoint: Option<String>,
    pub s3_bucket: Option<String>,
    pub s3_region: String,
    pub s3_access_key: Option<String>,
    pub s3_secret_key: Option<String>,
    pub minio_use_ssl: bool,
    pub database_url: Option<String>,
    pub log_level: String,
}

impl Default for CliArgs {
    /// The settings when no option is given.
    fn default() -> (r: Self)
        ensures
            r.port == 3000,
            r.host@ == "0.0.0.0"@,
            r.storage_backend@ == "memory"@,
            r.repository_backend@ == "memory"@,
            r.s3_endpoint is None,
            r.s3_bucket is None,
            r.s3_region@ == "us-east-1"@,
            r.s3_access_key is None,
            r.s3_secret_key is None,
            !r.minio_use_ssl,
            r.database_url is None,
            r.log_level@ == "info"@,
    {
        CliArgs {
            port: 3000,
            host: String::from_str("0.0.0.0"),
            storage_backend: String::from_str("memory"),
            repository_backend: String::from_str("memory"),
            s3_endpoint: None,
            s3_bucket: None,
            s3_region: String::from_str("us-east-1"),
            s3_access_key: None,
            s3_secret_key: None,
            minio_use_ssl: false,
            database_url: None,
            log_level: String::from_str("info"),
        }
    }
}

/// The storage backend the settings choose, or the reason they choose none.
pub open spec fn storage_choice(a: CliArgs) -> Result<StorageBackendView, Seq<char>> {
    if a.storage_backend@ == "memory"@ {
        Ok(StorageBackendView::InMemory)
    } else if a.storage_backend@ == "s3"@ {
        match a.s3_bucket {
            None => Err("S3_BUCKET is required for S3 backend"@),
            Some(bucket) => Ok(
                StorageBackendView::S3 {
                    bucket: bucket@,
                    region: a.s3_region@,
                    access_key: opt_view(a.s3_access_key),
                    secret_key: opt_view(a.s3_secret_key),
                },
            ),
        }
    } else if a.storage_backend@ == "minio"@ {
        if a.s3_endpoint is None {
            Err("S3_ENDPOINT is required for MinIO backend"@)
        } else if a.s3_bucket is None {
            Err("S3_BUCKET is required for MinIO backend"@)
        } else if a.s3_access_key is None {
            Err("S3_ACCESS_KEY is required for MinIO backend"@)
        } else if a.s3_secret_key is None {
            Err("S3_SECRET_KEY is required for MinIO backend"@)
        } else {
            Ok(
                StorageBackendView::MinIO {
                    endpoint: a.s3_endpoint->0@,
                    bucket: a.s3_bucket->0@,
                    access_key: a.s3_access_key->0@,
                    secret_key: a.s3_secret_key->0@,
                    use_ssl: a.minio_use_ssl,
                },
            )
        }
    } else {
        Err("Unknown storage backend: "@ + a.storage_backend@)
    }
}

/// The repository backend the settings choose, or the reason they choose none.
pub open spec fn repository_choice(a: CliArgs) -> Result<RepositoryBackendView, Seq<char>> {
    if a.repository_backend@ == "memory"@ {
        Ok(RepositoryBackendView::InMemory)
    } else if a.repository_backend@ == "database"@ || a.repository_backend@ == "db"@ {
        match a.database_url {
            None => Err("DATABASE_URL is required for database backend"@),
            Some(url) => Ok(RepositoryBackendView::Database { connection_string: url@ }),
        }
    } else {
        Err("Unknown repository backend: "@ + a.repository_backend@)
    }
}

/// The logging level the settings ask for; an unknown name means `info`.
pub open spec fn log_filter_of(level: Seq<char>) -> Seq<char> {
    if lower_eq(level, "trace"@) {
        "trace"@
    } else if lower_eq(level, "debug"@) {
        "debug"@
    } else if lower_eq(level, "warn"@) {
        "warn"@
    } else if lower_eq(level, "error"@) {
        "error"@
    } else {
        "info"@
    }
}

impl CliArgs {
    /// The storage backend these settings choose.
    fn storage_config(&self) -> (r: Result<StorageBackend, String>)
        ensures
            match r {
                Ok(b) => storage_choice(*self) == Ok::<StorageBackendView, Seq<char>>(b@),
                Err(e) => storage_choice(*self) == Err::<StorageBackendView, Seq<char>>(e@),
            },
    {
        if str_eq(self.storage_backend.as_str(), "memory") {
            Ok(StorageBackend::InMemory)
        } else if str_eq(self.storage_backend.as_str(), "s3") {
            match &self.s3_bucket {
                None => Err(String::from_str("S3_BUCKET is required for S3 backend")),
                Some(bucket) => Ok(
                    StorageBackend::S3 {
                        bucket: bucket.clone(),
                        region: self.s3_region.clone(),
                        access_key: clone_opt_string(&self.s3_access_key),
                        secret_key: clone_opt_string(&self.s3_secret_key),
                    },
                ),
            }
        } else if str_eq(self.storage_backend.as_str(), "minio") {
            let endpoint = match &self.s3_endpoint {
                None => { return Err(String::from_str("S3_ENDPOINT is required for MinIO backend")); },
                Some(e) => e.clone(),
            };
            let bucket = match &self.s3_bucket {
                None => { return Err(String::from_str("S3_BUCKET is required for MinIO backend")); },
                Some(b) => b.clone(),
            };
            let access_key = match &self.s3_access_key {
                None => {
                    return Err(String::from_str("S3_ACCESS_KEY is required for MinIO backend"));
                },
                Some(k) => k.clone(),
            };
            let secret_key = match &self.s3_secret_key {
                None => {
                    return Err(String::from_str("S3_SECRET_KEY is required for MinIO backend"));
                },
                Some(k) => k.clone(),
            };
            Ok(
                StorageBackend::MinIO {
                    endpoint,
                    bucket,
                    access_key,
                    secret_key,
                    use_ssl: self.minio_use_ssl,
                },
            )
        } else {
            Err(concat_str("Unknown storage backend: ", self.storage_backend.as_str()))
        }
    }

    /// The repository backend these settings choose.
    fn repository_config(&self) -> (r: Result<RepositoryBackend, String>)
        ensures
            match r {
                Ok(b) => repository_choice(*self) == Ok::<RepositoryBackendView, Seq<char>>(b@),
                Err(e) => repository_choice(*self) == Err::<RepositoryBackendView, Seq<char>>(e@),
            },
    {
        if str_eq(self.repository_backend.as_str(), "memory") {
            Ok(RepositoryBackend::InMemory)
        } else if str_eq(self.repository_backend.as_str(), "database") || str_eq(
            self.repository_backend.as_str(),
            "db",
        ) {
            match &self.database_url {
                None => Err(String::from_str("DATABASE_URL is required for database backend")),
                Some(url) => Ok(RepositoryBackend::Database { connection_string: url.clone() }),
            }
        } else {
            Err(concat_str("Unknown repository backend: ", self.repository_backend.as_str()))
        }
    }

    /// The application configuration these settings describe. The storage backend is checked
    /// first, so its error wins when both are wrong.
    pub fn to_app_config(&self) -> (r: Result<AppConfig, String>)
        ensures
            match r {
                Ok(c) => storage_choice(*self) == Ok::<StorageBackendView, Seq<char>>(
                    c.storage_backend@,
                ) && repository_choice(*self) == Ok::<RepositoryBackendView, Seq<char>>(
                    c.repository_backend@,
                ),
                Err(e) => match storage_choice(*self) {
                    Err(m) => e@ == m,
                    Ok(_) => repository_choice(*self) == Err::<RepositoryBackendView, Seq<char>>(
                        e@,
                    ),
                },
            },
    {
        let storage_backend = match self.storage_config() {
            Ok(b) => b,
            Err(e) => { return Err(e); },
        };
        let repository_backend = match self.repository_config() {
            Ok(b) => b,
            Err(e) => { return Err(e); },
        };
        Ok(AppConfig { storage_backend, repository_backend })
    }

    /// The logging level to install, from the `log_level` setting.
    pub fn log_filter(&self) -> (r: &'static str)
        ensures
            r@ == log_filter_of(self.log_level@),
    {
        if lower_equals(self.log_level.as_str(), "trace") {
            "trace"
        } else if lower_equals(self.log_level.as_str(), "debug") {
            "debug"
        } else if lower_equals(self.log_level.as_str(), "warn") {
            "warn"
        } else if lower_equals(self.log_level.as_str(), "error") {
            "error"
        } else {
            "info"
        }
    }
}

/// The value of the first variable with this name.
pub open spec fn env_value(env: Seq<(String, String)>, name: Seq<char>) -> Option<Seq<char>>
    decreases env.len(),
{
    if env.len() == 0 {
        None
    } else if env[0].0@ == name {
        Some(env[0].1@)
    } else {
        env_value(env.drop_first(), name)
    }
}

/// The value of the first variable with this name.
pub fn env_var(env: &Vec<(String, String)>, name: &str) -> (r: Option<String>)
    ensures
        opt_view(r) == env_value(env@, name@),
{
    let mut i: usize = 0;
    assert(env@.skip(0) =~= env@);
    while i < env.len()
        invariant
            i <= env@.len(),
            env_value(env@, name@) == env_value(env@.skip(i as int), name@),
        decreases env@.len() - i,
    {
        assert(env@.skip(i as int).drop_first() =~= env@.skip(i + 1));
        if str_eq(env[i].0.as_str(), name) {
            return Some(env[i].1.clone());
        }
        i = i + 1;
    }
    None
}

/// A configuration error that says the variable is required.
pub open spec fn missing_variable(name: Seq<char>) -> Seq<char> {
    name + " environment variable required"@
}

/// The storage backend the environment chooses (`STORAGE_BACKEND` is `s3`, `minio`, or
/// anything else for memory), or the variable that it lacks.
pub open spec fn env_storage_choice(env: Seq<(String, String)>) -> Result<StorageBackendView, Seq<char>> {
    let kind = env_value(env, "STORAGE_BACKEND"@);
    if kind == Some("s3"@) {
        match (env_value(env, "S3_BUCKET"@), env_value(env, "S3_REGION"@)) {
            (None, _) => Err(missing_variable("S3_BUCKET"@)),
            (Some(_), None) => Err(missing_variable("S3_REGION"@)),
            (Some(bucket), Some(region)) => Ok(StorageBackendView::S3 {
                bucket,
                region,
                access_key: env_value(env, "S3_ACCESS_KEY"@),
                secret_key: env_value(env, "S3_SECRET_KEY"@),
            }),
        }
    } else if kind == Some("minio"@) {
        let endpoint = env_value(env, "MINIO_ENDPOINT"@);
        let bucket = env_value(env, "MINIO_BUCKET"@);
        let access = env_value(env, "MINIO_ACCESS_KEY"@);
        let secret = env_value(env, "MINIO_SECRET_KEY"@);
        if endpoint is None {
            Err(missing_variable("MINIO_ENDPOINT"@))
        } else if bucket is None {
            Err(missing_variable("MINIO_BUCKET"@))
        } else if access is None {
            Err(missing_variable("MINIO_ACCESS_KEY"@))
        } else if secret is None {
            Err(missing_variable("MINIO_SECRET_KEY"@))
        } else {
            Ok(StorageBackendView::MinIO {
                endpoint: endpoint->0,
                bucket: bucket->0,
                access_key: access->0,
                secret_key: secret->0,
                use_ssl: match env_value(env, "MINIO_USE_SSL"@) {
                    Some(v) => lower_eq(v, "true"@),
                    None => false,
                },
            })
        }
    } else {
        Ok(StorageBackendView::InMemory)
    }
}

/// The repository backend the environment chooses (`REPOSITORY_BACKEND` is `database`, or
/// anything else for memory), or the variable that it lacks.
pub open spec fn env_repository_choice(env: Seq<(String, String)>) -> Result<RepositoryBackendView, Seq<char>> {
    if env_value(env, "REPOSITORY_BACKEND"@) == Some("database"@) {
        match env_value(env, "DATABASE_URL"@) {
            None => Err(missing_variable("DATABASE_URL"@)),
            Some(url) => Ok(RepositoryBackendView::Database { connection_string: url }),
        }
    } else {
        Ok(RepositoryBackendView::InMemory)
    }
}

fn required_var(env: &Vec<(String, String)>, name: &str) -> (r: Result<String, AppError>)
    ensures
        match env_value(env@, name@) {
            Some(v) => r matches Ok(x) && x@ == v,
            None => r matches Err(AppError::Configuration { message }) && message@ == missing_variable(name@),
        },
{
    match env_var(env, name) {
        Some(v) => Ok(v),
        None => Err(AppError::Configuration { message: concat_str(name, " environment variable required") }),
    }
}

fn is_named(v: &Option<String>, word: &str) -> (r: bool)
    ensures
        r == (opt_view(*v) == Some(word@)),
{
    match v {
        Some(x) => str_eq(x.as_str(), word),
        None => false,
    }
}

/// The configuration the environment variables describe; the storage backend is checked
/// first, so its error wins when both are wrong.
pub fn config_from_env(env: &Vec<(String, String)>) -> (r: Result<AppConfig, AppError>)
    ensures
        match r {
            Ok(c) => env_storage_choice(env@) == Ok::<StorageBackendView, Seq<char>>(c.storage_backend@)
                && env_repository_choice(env@) == Ok::<RepositoryBackendView, Seq<char>>(c.repository_backend@),
            Err(AppError::Configuration { message }) => match env_storage_choice(env@) {
                Err(m) => message@ == m,
                Ok(_) => env_repository_choice(env@) == Err::<RepositoryBackendView, Seq<char>>(message@),
            },
            Err(_) => false,
        },
{
    let kind = env_var(env, "STORAGE_BACKEND");
    let storage_backend = if is_named(&kind, "s3") {
        let bucket = match required_var(env, "S3_BUCKET") {
            Ok(v) => v,
            Err(e) => { return Err(e); },
        };
        let region = match required_var(env, "S3_REGION") {
            Ok(v) => v,
            Err(e) => { return Err(e); },
        };
        StorageBackend::S3 {
            bucket,
            region,
            access_key: env_var(env, "S3_ACCESS_KEY"),
            secret_key: env_var(env, "S3_SECRET_KEY"),
        }
    } else if is_named(&kind, "minio") {
        let endpoint = match required_var(env, "MINIO_ENDPOINT") {
            Ok(v) => v,
            Err(e) => { return Err(e); },
        };
        let bucket = match required_var(env, "MINIO_BUCKET") {
            Ok(v) => v,
            Err(e) => { return Err(e); },
        };
        let access_key = match required_var(env, "MINIO_ACCESS_KEY") {
            Ok(v) => v,
            Err(e) => { return Err(e); },
        };
        let secret_key = match required_var(env, "MINIO_SECRET_KEY") {
            Ok(v) => v,
            Err(e) => { return Err(e); },
        };
        let use_ssl = match env_var(env, "MINIO_USE_SSL") {
            Some(v) => lower_equals(v.as_str(), "true"),
            None => false,
        };
        StorageBackend::MinIO { endpoint, bucket, access_key, secret_key, use_ssl }
    } else {
        StorageBackend::InMemory
    };
    let repository_backend = if is_named(&env_var(env, "REPOSITORY_BACKEND"), "database") {
        match required_var(env, "DATABASE_URL") {
            Ok(url) => RepositoryBackend::Database { connection_string: url },
            Err(e) => { return Err(e); },
        }
    } else {
        RepositoryBackend::InMemory
    };
    Ok(AppConfig { storage_backend, repository_backend })
}

} // verus!
