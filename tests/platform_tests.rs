use swoop_dispatch::platforms::{
    FacebookScraper, GenericScraper, PlatformKind, ScraperConfig, ScraperRegistry,
};

#[test]
fn test_default_scraper_config() {
    let config = ScraperConfig::default();
    assert_eq!(config.max_concurrent, 10);
    assert_eq!(config.timeout_secs, 30);
    assert_eq!(config.rate_limit, 1);
    assert!(!config.user_agent.is_empty());
    assert!(!config.headers.is_empty());
}

#[test]
fn test_generic_scraper_can_handle() {
    let scraper = GenericScraper::new(ScraperConfig::default());
    assert!(scraper.can_handle("https://example.com"));
    assert!(scraper.can_handle("http://example.com"));
    assert!(!scraper.can_handle("ftp://example.com"));
}

#[test]
fn test_facebook_scraper_can_handle() {
    let scraper = FacebookScraper::new(ScraperConfig::default());
    assert!(scraper.can_handle("https://facebook.com/page"));
    assert!(scraper.can_handle("https://www.facebook.com/page"));
    assert!(!scraper.can_handle("https://example.com"));
}

#[test]
fn test_scraper_registry() {
    let registry = ScraperRegistry::default();

    let facebook_scraper = registry.find_scraper("https://facebook.com/page");
    assert!(facebook_scraper.is_some());
    assert_eq!(facebook_scraper.unwrap().platform_name(), "facebook");

    let generic_scraper = registry.find_scraper("https://example.com");
    assert!(generic_scraper.is_some());
    assert_eq!(generic_scraper.unwrap().platform_name(), "generic");
}

#[test]
fn registry_order_and_misses() {
    let registry = ScraperRegistry::default();
    assert_eq!(registry.find_scraper("https://www.linkedin.com/in/x"), Some(PlatformKind::LinkedIn));
    assert_eq!(registry.find_scraper("ftp://instagram.com/x"), Some(PlatformKind::Instagram));
    assert_eq!(registry.find_scraper("ftp://example.com"), None);
    assert!(ScraperRegistry::new().find_scraper("https://example.com").is_none());
}
