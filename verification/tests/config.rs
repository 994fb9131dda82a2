use object_store_server::config::config_from_env;
use object_store_server::config::{
    AppBuilder, AppConfig, AppError, CliArgs, RepositoryBackend, StorageBackend,
};

#[test]
fn test_memory_config() {
    let cli = CliArgs::default();
    let config = cli.to_app_config().unwrap();
    match config.storage_backend {
        StorageBackend::InMemory => (),
        _ => panic!("Expected InMemory backend"),
    }
}

#[test]
fn s3_backend_needs_a_bucket() {
    let mut cli = CliArgs::default();
    cli.storage_backend = "s3".to_string();
    assert_eq!(cli.to_app_config().unwrap_err(), "S3_BUCKET is required for S3 backend");
    cli.s3_bucket = Some("test-bucket".to_string());
    cli.s3_access_key = Some("test-key".to_string());
    match cli.to_app_config().unwrap().storage_backend {
        StorageBackend::S3 { bucket, region, access_key, secret_key } => {
            assert_eq!(bucket, "test-bucket");
            assert_eq!(region, "us-east-1");
            assert_eq!(access_key, Some("test-key".to_string()));
            assert_eq!(secret_key, None);
        }
        _ => panic!("Expected S3 backend"),
    }
}

#[test]
fn minio_backend_needs_every_setting_in_order() {
    let mut cli = CliArgs::default();
    cli.storage_backend = "minio".to_string();
    assert_eq!(cli.to_app_config().unwrap_err(), "S3_ENDPOINT is required for MinIO backend");
    cli.s3_endpoint = Some("http://localhost:9000".to_string());
    assert_eq!(cli.to_app_config().unwrap_err(), "S3_BUCKET is required for MinIO backend");
    cli.s3_bucket = Some("b".to_string());
    assert_eq!(cli.to_app_config().unwrap_err(), "S3_ACCESS_KEY is required for MinIO backend");
    cli.s3_access_key = Some("k".to_string());
    assert_eq!(cli.to_app_config().unwrap_err(), "S3_SECRET_KEY is required for MinIO backend");
    cli.s3_secret_key = Some("s".to_string());
    cli.minio_use_ssl = true;
    match cli.to_app_config().unwrap().storage_backend {
        StorageBackend::MinIO { endpoint, use_ssl, .. } => {
            assert_eq!(endpoint, "http://localhost:9000");
            assert!(use_ssl);
        }
        _ => panic!("Expected MinIO backend"),
    }
}

#[test]
fn unknown_backends_are_named_in_the_error() {
    let mut cli = CliArgs::default();
    cli.storage_backend = "tape".to_string();
    assert_eq!(cli.to_app_config().unwrap_err(), "Unknown storage backend: tape");
    let mut cli = CliArgs::default();
    cli.repository_backend = "csv".to_string();
    assert_eq!(cli.to_app_config().unwrap_err(), "Unknown repository backend: csv");
}

#[test]
fn database_repository_needs_a_url() {
    let mut cli = CliArgs::default();
    cli.repository_backend = "db".to_string();
    assert_eq!(cli.to_app_config().unwrap_err(), "DATABASE_URL is required for database backend");
    cli.database_url = Some("postgres://localhost/db".to_string());
    match cli.to_app_config().unwrap().repository_backend {
        RepositoryBackend::Database { connection_string } => {
            assert_eq!(connection_string, "postgres://localhost/db")
        }
        _ => panic!("Expected database backend"),
    }
}

#[test]
fn defaults_and_log_levels() {
    let cli = CliArgs::default();
    assert_eq!(cli.port, 3000);
    assert_eq!(cli.host, "0.0.0.0");
    assert_eq!(cli.log_filter(), "info");
    let mut cli = CliArgs::default();
    cli.log_level = "DEBUG".to_string();
    assert_eq!(cli.log_filter(), "debug");
    cli.log_level = "loud".to_string();
    assert_eq!(cli.log_filter(), "info");
}

#[test]
fn builder_replaces_backends() {
    let builder = AppBuilder::new().with_storage_backend(StorageBackend::S3 {
        bucket: "b".to_string(),
        region: "r".to_string(),
        access_key: None,
        secret_key: None,
    });
    assert!(matches!(builder.config().storage_backend, StorageBackend::S3 { .. }));
    assert!(matches!(builder.config().repository_backend, RepositoryBackend::InMemory));
    let builder = builder.with_config(AppConfig::default());
    assert!(matches!(builder.config().storage_backend, StorageBackend::InMemory));
    let builder = builder.with_repository_backend(RepositoryBackend::Database {
        connection_string: "x".to_string(),
    });
    assert!(matches!(builder.config().repository_backend, RepositoryBackend::Database { .. }));
}

#[test]
fn app_error_messages() {
    let e = AppError::Configuration { message: "bad".to_string() };
    assert_eq!(e.message(), "Configuration error: bad");
    let e = AppError::ServiceInit { message: "x".to_string() };
    assert_eq!(e.message(), "Service initialization error: x");
}

#[test]
fn configuration_from_the_environment() {
    let env = |pairs: &[(&str, &str)]| pairs.iter().map(|(k, v)| (k.to_string(), v.to_string())).collect::<Vec<_>>();
    let c = config_from_env(&env(&[])).unwrap();
    assert!(matches!(c.storage_backend, StorageBackend::InMemory));
    assert!(matches!(c.repository_backend, RepositoryBackend::InMemory));
    match config_from_env(&env(&[("STORAGE_BACKEND", "s3")])).unwrap_err() {
        AppError::Configuration { message } => assert_eq!(message, "S3_BUCKET environment variable required"),
        other => panic!("unexpected: {:?}", other),
    }
    let c = config_from_env(&env(&[
        ("STORAGE_BACKEND", "minio"),
        ("MINIO_ENDPOINT", "localhost:9000"),
        ("MINIO_BUCKET", "b"),
        ("MINIO_ACCESS_KEY", "a"),
        ("MINIO_SECRET_KEY", "s"),
        ("MINIO_USE_SSL", "TRUE"),
        ("REPOSITORY_BACKEND", "database"),
        ("DATABASE_URL", "postgres://db"),
    ]))
    .unwrap();
    assert!(matches!(c.storage_backend, StorageBackend::MinIO { use_ssl: true, .. }));
    assert!(matches!(c.repository_backend, RepositoryBackend::Database { connection_string } if connection_string == "postgres://db"));
    match config_from_env(&env(&[("REPOSITORY_BACKEND", "database")])).unwrap_err() {
        AppError::Configuration { message } => assert_eq!(message, "DATABASE_URL environment variable required"),
        other => panic!("unexpected: {:?}", other),
    }
}
