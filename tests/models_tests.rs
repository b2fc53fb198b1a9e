use swoop_dispatch::extractors::{is_safe_content, is_safe_lowered, is_safe_metadata_key};
use swoop_dispatch::models::{ContentQuery, StorageStats, StoredContent};
use swoop_dispatch::storage::{ConfigError, SecureS3Config, SecureScyllaConfig};

#[test]
fn test_stored_content_creation() {
    let content = StoredContent::new(
        "https://example.com".to_string(),
        "example.com".to_string(),
        "generic".to_string(),
        Some("Test Title".to_string()),
        Some("Test content".to_string()),
        None,
        Vec::new(),
        0,
    );

    assert_eq!(content.url, "https://example.com");
    assert_eq!(content.domain, "example.com");
    assert_eq!(content.platform, "generic");
    assert!(!content.id.is_empty());
    assert!(!content.content_hash.is_empty());
    assert!(content.size_bytes > 0);
}

#[test]
fn stored_content_hash_and_size_are_exact() {
    let content = StoredContent::with_id(
        "id-1".to_string(),
        "u".to_string(),
        "d".to_string(),
        "p".to_string(),
        Some("a".to_string()),
        Some("b".to_string()),
        Some("<p>".to_string()),
        vec![("k".to_string(), "v".to_string())],
        42,
    );
    assert_ne!(content.content_hash, "abu");
    assert_eq!(content.content_hash.len(), 32);
    assert_eq!(content.size_bytes, 6);
    assert_eq!(content.scraped_at_ms, 42);
    let mut content = content.with_tags(vec!["t".to_string()]);
    content.mark_stored(50);
    assert_eq!(content.stored_at_ms, 50);
    assert_eq!(content.tags, vec!["t".to_string()]);
}

#[test]
fn md5_of_known_text() {
    let content = StoredContent::with_id(String::new(), String::new(), String::new(), String::new(), None, None, None, Vec::new(), 0);
    assert_eq!(content.content_hash, "d41d8cd98f00b204e9800998ecf8427e");
}

#[test]
fn test_storage_stats_calculation() {
    let mut stats = StorageStats {
        total_documents: 100,
        total_size_bytes: 1000000,
        archived_size_bytes: 800000,
        ..Default::default()
    };

    stats.calculate_derived();

    assert_eq!(stats.avg_document_size, 10000);
    assert_eq!(stats.compression_ratio_ppm, 800000);
}

#[test]
fn test_content_query_defaults() {
    let query = ContentQuery::default();

    assert_eq!(query.limit, Some(100));
    assert_eq!(query.offset, Some(0));
    assert_eq!(query.sort_by, Some("newest_first".to_string()));
}

#[test]
fn metadata_keys_and_content_safety() {
    assert!(is_safe_metadata_key("og:title"));
    assert!(is_safe_metadata_key("twitter_card-1"));
    assert!(!is_safe_metadata_key("bad key"));
    assert!(!is_safe_metadata_key("x<y"));
    assert!(is_safe_content("plain text"));
    assert!(!is_safe_content("<SCRIPT>alert(1)</SCRIPT>"));
    assert!(!is_safe_content("JavaScript:void(0)"));
    assert!(!is_safe_content(&"a".repeat(1000)));
    assert!(is_safe_content(&"a".repeat(999)));
    assert!(!is_safe_lowered("data:text/html", 14));
}

#[test]
fn test_s3_config_missing_bucket() {
    let result = SecureS3Config::from_values(None, None, None);
    assert!(result.is_err());
    assert!(matches!(result, Err(ConfigError::MissingVariable { name }) if name == "S3_BUCKET"));
}

#[test]
fn test_s3_config_from_env() {
    let config = SecureS3Config::from_values(None, Some("test-bucket".to_string()), Some("us-west-2".to_string())).unwrap();
    assert_eq!(config.bucket, "test-bucket");
    assert_eq!(config.region, "us-west-2");
    assert_eq!(config.endpoint, "https://s3.amazonaws.com");
}

#[test]
fn test_scylla_config_from_env() {
    let config = SecureScyllaConfig::from_values(
        Some("node1:9042,node2:9042".to_string()),
        Some("test_keyspace".to_string()),
        None,
    );
    assert_eq!(config.nodes, vec!["node1:9042", "node2:9042"]);
    assert_eq!(config.keyspace, "test_keyspace");
    assert_eq!(config.timeout_secs, 30);
}

#[test]
fn scylla_nodes_are_trimmed_and_bad_timeouts_fall_back() {
    let config = SecureScyllaConfig::from_values(Some(" a:1 , b:2,".to_string()), None, Some("x".to_string()));
    assert_eq!(config.nodes, vec!["a:1", "b:2", ""]);
    assert_eq!(config.keyspace, "swoop");
    assert_eq!(config.timeout_secs, 30);
    assert_eq!(SecureScyllaConfig::from_values(None, None, Some("45".to_string())).timeout_secs, 45);
    assert_eq!(SecureScyllaConfig::default().nodes, vec!["127.0.0.1:9042"]);
}

#[test]
fn credentials_must_be_present_and_non_empty() {
    assert!(matches!(
        SecureS3Config::credentials_from_values(None, Some("s".to_string())),
        Err(ConfigError::MissingVariable { name }) if name == "AWS_ACCESS_KEY_ID"
    ));
    assert!(matches!(
        SecureS3Config::credentials_from_values(Some("a".to_string()), None),
        Err(ConfigError::MissingVariable { name }) if name == "AWS_SECRET_ACCESS_KEY"
    ));
    assert!(matches!(
        SecureS3Config::credentials_from_values(Some(String::new()), Some("s".to_string())),
        Err(ConfigError::EmptyCredentials)
    ));
    let (a, s) = SecureS3Config::credentials_from_values(Some("a".to_string()), Some("s".to_string())).ok().unwrap();
    assert_eq!((a.as_str(), s.as_str()), ("a", "s"));
}
