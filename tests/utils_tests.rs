use swoop_dispatch::robots::parse_robots_txt;
use swoop_dispatch::utils::{
    extract_domain, generate_user_agent, has_bot_markers, is_bot_protected, is_valid_url,
    normalize_url, RateLimiter, UrlError,
};

#[test]
fn test_normalize_url() {
    assert_eq!(normalize_url("https://example.com/path#fragment"), "https://example.com/path");
    assert_eq!(normalize_url("https://example.com/path"), "https://example.com/path");
}

#[test]
fn test_is_valid_url() {
    assert!(is_valid_url("https://example.com"));
    assert!(is_valid_url("http://example.com"));
    assert!(!is_valid_url("ftp://example.com"));
    assert!(!is_valid_url("not-a-url"));
}

#[test]
fn test_extract_domain() {
    assert_eq!(extract_domain("https://example.com/path").unwrap(), "example.com");
    assert_eq!(extract_domain("https://sub.example.com/path").unwrap(), "sub.example.com");
}

#[test]
fn extract_domain_rejects_text_that_is_no_url() {
    assert_eq!(extract_domain("not a url"), Err(UrlError::Malformed));
}

#[test]
fn test_is_bot_protected() {
    assert!(is_bot_protected("This page contains a CAPTCHA"));
    assert!(is_bot_protected("Cloudflare protection enabled"));
    assert!(!is_bot_protected("Normal page content"));
}

#[test]
fn bot_markers_need_lower_case_input() {
    assert!(!has_bot_markers("CAPTCHA"));
    assert!(has_bot_markers("captcha"));
    assert!(is_bot_protected("ACCESS DENIED"));
    assert!(is_bot_protected("Robot activity Detected"));
    assert!(!is_bot_protected("a robot page"));
}

#[test]
fn test_robots_txt_parsing() {
    let robots_content = r#"
            User-agent: *
            Disallow: /private/
            Allow: /public/
            Crawl-delay: 1
        "#;

    let robots = parse_robots_txt(robots_content);
    assert_eq!(robots.user_agent, Some("*".to_string()));
    assert!(robots.disallow.contains(&"/private/".to_string()));
    assert!(robots.allow.contains(&"/public/".to_string()));
    assert_eq!(robots.crawl_delay, Some(1));
}

#[test]
fn test_robots_txt_is_allowed() {
    let robots_content = r#"
            User-agent: *
            Disallow: /private/
            Allow: /public/
        "#;

    let robots = parse_robots_txt(robots_content);
    assert!(!robots.is_allowed("/private/secret"));
    assert!(robots.is_allowed("/public/info"));
    assert!(robots.is_allowed("/other/path"));
}

#[test]
fn robots_ignores_comments_unknown_lines_and_bad_delays() {
    let robots = parse_robots_txt("# comment\r\nSitemap: x\r\nno colon here\r\nCRAWL-DELAY: soon\r\ndisallow:/a\r\n");
    assert_eq!(robots.user_agent, None);
    assert_eq!(robots.disallow, vec!["/a".to_string()]);
    assert!(robots.allow.is_empty());
    assert_eq!(robots.crawl_delay, None);
    assert_eq!(parse_robots_txt("Crawl-delay: +15").crawl_delay, Some(15));
    assert_eq!(parse_robots_txt("Crawl-delay: 18446744073709551616").crawl_delay, None);
    assert_eq!(parse_robots_txt("").disallow.len(), 0);
}

#[test]
fn default_user_agent() {
    assert_eq!(generate_user_agent(), "Mozilla/5.0 (X11; Linux x86_64; rv:91.0) Gecko/20100101 Firefox/91.0");
}

#[test]
fn test_rate_limiter() {
    let mut rate_limiter = RateLimiter::new(10);
    assert_eq!(rate_limiter.wait_if_needed(0), 0);
    // the second request, issued at once, waits the 100 ms interval
    assert_eq!(rate_limiter.wait_if_needed(0), 100);
    assert_eq!(rate_limiter.wait_if_needed(500), 0);
}
