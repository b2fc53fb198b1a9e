use swoop_dispatch::logs::{ExportFormat, LogBuffer, LogLevel};
use swoop_dispatch::security::UrlValidator;
use swoop_dispatch::storage::{BatchResult, S3Config, ScyllaConfig, StorageConfig, StorageManager};

#[test]
fn test_storage_config_defaults() {
    let config = StorageConfig::default();
    assert_eq!(config.scylla.keyspace, "swoop");
    assert_eq!(config.s3.bucket, "swoop-data");
}

#[test]
fn test_scylla_config_defaults() {
    let config = ScyllaConfig::default();
    assert_eq!(config.nodes, vec!["127.0.0.1:9042".to_string()]);
    assert_eq!(config.timeout_secs, 30);
    assert_eq!(config.compression, Some("lz4".to_string()));
}

#[test]
fn test_storage_manager_creation() {
    let manager = StorageManager::new();
    assert!(manager.scylla_store.is_none());
    assert!(manager.s3_store.is_none());
}

#[test]
fn storage_manager_needs_a_primary_backend() {
    let manager = StorageManager::new();
    assert!(!manager.has_primary());
    let manager = manager.with_scylla(ScyllaConfig::default());
    assert!(manager.has_primary());
}

#[test]
fn test_batch_result() {
    let mut result = BatchResult::new();

    result.add_success();
    result.add_success();
    result.add_error("Test error".to_string());

    assert_eq!(result.success_count, 2);
    assert_eq!(result.error_count, 1);
    assert_eq!(result.total_operations(), 3);
    assert!(!result.is_success());
}

#[test]
fn log_labels_and_bounded_buffer() {
    assert_eq!(LogLevel::Warning.as_str(), "WARN");
    assert_eq!(LogLevel::Success.as_str(), "SUCCESS");
    assert_eq!(ExportFormat::Csv.as_str(), "CSV");
    let mut buf = LogBuffer::with_capacity(2);
    buf.add_entry(LogLevel::Info, "a".to_string(), "t".to_string(), 1);
    buf.add_entry(LogLevel::Info, "b".to_string(), "t".to_string(), 2);
    buf.add_entry(LogLevel::Error, "c".to_string(), "t".to_string(), 3);
    assert_eq!(buf.len(), 2);
    assert_eq!(LogBuffer::default().len(), 0);
}

#[test]
fn url_validator_defaults() {
    let v = UrlValidator::new(true);
    assert!(v.allow_private_ips);
    assert_eq!(v.allowed_schemes, vec!["http".to_string(), "https".to_string()]);
    assert_eq!(v.blocked_domains.len(), 4);
    assert!(!UrlValidator::default().allow_private_ips);
}

#[test]
fn storage_manager_records_archive_backend() {
    let m = StorageManager::default().with_s3(S3Config::default());
    assert_eq!(m.s3_store.as_ref().unwrap().region, "us-east-1");
    assert!(m.scylla_store.is_none());
}
