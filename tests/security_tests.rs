use swoop_dispatch::security::{is_private_host, SecurityError, UrlValidator};

#[test]
fn test_valid_https_url() {
    let validator = UrlValidator::default();
    let result = validator.validate_url("https://example.com");
    assert!(result.is_ok());
}

#[test]
fn test_invalid_scheme() {
    let validator = UrlValidator::default();
    let result = validator.validate_url("ftp://example.com");
    assert!(matches!(result, Err(SecurityError::InvalidScheme { .. })));
}

#[test]
fn test_blocked_domain() {
    let validator = UrlValidator::default();
    let result = validator.validate_url("https://localhost:8080");
    assert!(matches!(result, Err(SecurityError::BlockedDomain { .. })));
}

#[test]
fn test_private_ip_blocked() {
    let validator = UrlValidator::default();
    let result = validator.validate_url("https://192.168.1.1");
    assert!(matches!(result, Err(SecurityError::PrivateIP { .. })));
}

#[test]
fn test_aws_metadata_blocked() {
    let validator = UrlValidator::default();
    let result = validator.validate_url("http://169.254.169.254/latest/meta-data/");
    assert!(matches!(result, Err(SecurityError::BlockedDomain { .. })));
}

#[test]
fn test_allow_private_ips() {
    let validator = UrlValidator::new(true);
    let result = validator.validate_url("https://192.168.1.1");
    assert!(result.is_ok());
}

#[test]
fn unparsable_url_fails_validation() {
    let validator = UrlValidator::default();
    match validator.validate_url("http://exa mple.com") {
        Err(SecurityError::ValidationFailed { reason }) => assert!(reason.starts_with("Parse error: ")),
        _ => panic!("a space is not allowed in a URI"),
    }
    match validator.validate_url("gopher://example.com") {
        Err(SecurityError::InvalidScheme { scheme }) => assert_eq!(scheme, "gopher"),
        _ => panic!("scheme must be refused"),
    }
}

#[test]
fn restricted_ipv4_ranges() {
    assert!(is_private_host("10.1.2.3"));
    assert!(is_private_host("172.16.0.1"));
    assert!(!is_private_host("172.32.0.1"));
    assert!(is_private_host("127.0.0.1"));
    assert!(is_private_host("224.0.0.1"));
    assert!(is_private_host("203.0.113.7"));
    assert!(is_private_host("255.255.255.255"));
    assert!(!is_private_host("8.8.8.8"));
    assert!(!is_private_host("010.1.2.3"));
    assert!(!is_private_host("10.1.2"));
    assert!(!is_private_host("10.1.2.256"));
    assert!(!is_private_host("example.com"));
    assert!(!is_private_host("[::1]"));
}
