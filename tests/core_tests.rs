use swoop_dispatch::cookie::{Cookie, CookieStore, SameSite};
use swoop_dispatch::dispatcher::{compute_delay, DispatchConfig, Dispatcher, Prepared};
use swoop_dispatch::proxy::{ProxyInfo, ProxyPool, ProxyType, HEALTH_HALF, HEALTH_SCALE};
use swoop_dispatch::rate_limiter::{Admission, DistributedRateLimiter, RateLimitError, TokenBucket};
use swoop_dispatch::rotator::{
    determine_optimal_region, load_regional_proxies, PoolConfigError, ProxyConfig, ProxyRotator,
};
use swoop_dispatch::session::{
    generate_session_headers, viewport_from_draw, SessionConfig, SessionManager, Viewport,
};

fn proxy(host: &str) -> ProxyInfo {
    ProxyInfo::new(host, 8080, ProxyType::Residential, "US", "isp")
}

fn cookie(name: &str, value: &str, expires: Option<u64>) -> Cookie {
    Cookie {
        name: name.to_string(),
        value: value.to_string(),
        domain: "d".to_string(),
        path: "/".to_string(),
        expires,
        secure: false,
        http_only: true,
        same_site: Some(SameSite::Lax),
    }
}

#[test]
fn test_rate_limiter_creation() {
    let limiter = DistributedRateLimiter::new(5, 10, 0).unwrap();
    let stats = limiter.get_stats();
    assert_eq!(stats.global_rate_limit, 10);
    assert_eq!(stats.domain_rate_limit, 5);
    assert_eq!(stats.total_domains, 0);
}

#[test]
fn zero_quotas_are_rejected() {
    assert_eq!(DistributedRateLimiter::new(5, 0, 0).err(), Some(RateLimitError::ZeroGlobalQuota));
    assert_eq!(DistributedRateLimiter::new(0, 5, 0).err(), Some(RateLimitError::ZeroDomainQuota));
}

#[test]
fn quota_two_per_second_spaces_three_calls_one_second() {
    let mut l = DistributedRateLimiter::new(2, 1000, 0).unwrap();
    assert_eq!(l.try_acquire("example.com", 0), Admission::Granted);
    assert_eq!(l.try_acquire("example.com", 0), Admission::Wait(500));
    assert_eq!(l.try_acquire("example.com", 499), Admission::Wait(1));
    assert_eq!(l.try_acquire("example.com", 500), Admission::Granted);
    assert_eq!(l.try_acquire("example.com", 500), Admission::Wait(500));
    assert_eq!(l.try_acquire("example.com", 1000), Admission::Granted);
    assert_eq!(l.get_domain_status("example.com", 1000), Some(500));
    assert_eq!(l.get_domain_status("other.com", 1000), None);
    assert_eq!(l.get_stats().total_domains, 1);
}

#[test]
fn global_cap_dominates_domain_quota() {
    let mut l = DistributedRateLimiter::new(100, 1, 0).unwrap();
    assert_eq!(l.try_acquire("a.com", 0), Admission::Granted);
    assert_eq!(l.try_acquire("b.com", 10), Admission::Wait(990));
    assert_eq!(l.try_acquire("b.com", 1000), Admission::Granted);
    assert_eq!(l.try_acquire("a.com", 1500), Admission::Wait(500));
    assert_eq!(l.try_acquire("a.com", 2000), Admission::Granted);
}

#[test]
fn reset_domain_forgets_its_bucket() {
    let mut l = DistributedRateLimiter::new(1, 1000, 0).unwrap();
    assert_eq!(l.try_acquire("example.com", 0), Admission::Granted);
    assert_eq!(l.try_acquire("example.com", 5), Admission::Wait(995));
    l.reset_domain("example.com");
    assert_eq!(l.get_stats().total_domains, 0);
    assert_eq!(l.try_acquire("example.com", 5), Admission::Granted);
}

#[test]
fn token_bucket_refills_continuously() {
    let mut b = TokenBucket::new(4, 0);
    assert!(b.has_token(0));
    b.take(0);
    assert!(!b.has_token(249));
    assert_eq!(b.wait_ms(100), 150);
    assert!(b.has_token(250));
}

#[test]
fn health_average_is_exact() {
    let mut p = proxy("h");
    assert_eq!(p.health_score, HEALTH_SCALE);
    p.update_health(false, 1);
    assert_eq!(p.health_score, 900000);
    p.update_health(true, 2);
    assert_eq!(p.health_score, 910000);
    assert_eq!(p.success_count, 1);
    assert_eq!(p.failure_count, 1);
    assert_eq!(p.last_used, Some(2));
}

#[test]
fn seven_failures_cross_half_and_seven_successes_restore() {
    let mut p = proxy("h");
    for i in 0..6 {
        p.update_health(false, i);
    }
    assert!(p.health_score > HEALTH_HALF);
    p.update_health(false, 6);
    assert!(p.health_score <= HEALTH_HALF);
    assert!(!p.is_healthy());
    for i in 0..7 {
        p.update_health(true, 10 + i);
    }
    assert!(p.health_score > HEALTH_HALF);
    assert!(p.is_healthy());
}

fn three_pool() -> ProxyPool {
    ProxyPool::new("us", vec![proxy("p1"), proxy("p2"), proxy("p3")], 0)
}

#[test]
fn round_robin_skips_unhealthy_and_readmits_recovered() {
    let mut pool = three_pool();
    for t in 0..7 {
        pool.report("p2", 8080, false, t);
    }
    let seq: Vec<String> = (0..4).map(|_| pool.get_next_healthy_proxy().unwrap().host).collect();
    assert_eq!(seq, vec!["p1", "p3", "p1", "p3"]);
    for t in 0..7 {
        pool.report("p2", 8080, true, 10 + t);
    }
    let seq: Vec<String> = (0..3).map(|_| pool.get_next_healthy_proxy().unwrap().host).collect();
    assert_eq!(seq, vec!["p1", "p2", "p3"]);
}

#[test]
fn exhausted_pool_returns_none() {
    let mut pool = three_pool();
    for h in ["p1", "p2", "p3"] {
        for t in 0..7 {
            pool.report(h, 8080, false, t);
        }
    }
    assert!(pool.get_next_healthy_proxy().is_none());
    assert_eq!(pool.get_stats().healthy_proxies, 0);
    assert_eq!(pool.remove_unhealthy_proxies(), 3);
    assert_eq!(pool.len(), 0);
    assert!(pool.get_next_healthy_proxy().is_none());
}

#[test]
fn health_probe_results_are_folded_in() {
    let mut pool = three_pool();
    assert_eq!(pool.apply_health_results(&vec![true, false, true], 5), 2);
    assert_eq!(pool.proxy(1).health_score, 900000);
    assert_eq!(pool.proxy(0).health_score, HEALTH_SCALE);
}

#[test]
fn regions_and_default_pools() {
    assert_eq!(determine_optimal_region("amazon"), "us");
    assert_eq!(determine_optimal_region("ebay"), "us");
    assert_eq!(determine_optimal_region("facebook"), "global");
    assert_eq!(determine_optimal_region("unknown"), "global");
    assert_eq!(load_regional_proxies("EU").len(), 2);
    assert_eq!(load_regional_proxies("MARS").len(), 0);
    let r = ProxyRotator::new(0);
    let stats = r.get_proxy_stats();
    assert_eq!(stats.total_proxies, 9);
    assert_eq!(stats.healthy_proxies, 9);
    assert_eq!(stats.regional_stats.len(), 4);
}

#[test]
fn rotator_without_proxies_is_rejected() {
    let pools = vec![ProxyPool::new("global", vec![], 0)];
    assert_eq!(ProxyRotator::with_pools(pools, ProxyConfig::default()).err(), Some(PoolConfigError::EmptyProxyList));
}

#[test]
fn sticky_binding_lasts_its_lifetime() {
    let mut r = ProxyRotator::new(0);
    let first = r.get_current_proxy("amazon", 0).unwrap();
    assert_eq!(first.host, "10.0.1.100");
    assert_eq!(r.get_current_proxy("amazon", 300000).unwrap().host, "10.0.1.100");
    assert_eq!(r.get_rotation_count(), 1);
    assert_eq!(r.get_current_proxy("amazon", 300001).unwrap().host, "10.0.1.101");
    assert_eq!(r.get_rotation_count(), 2);
    assert_eq!(r.cleanup_unhealthy_proxies(), 0);
}

#[test]
fn unhealthy_bound_proxy_is_replaced() {
    let mut r = ProxyRotator::new(0);
    let first = r.get_current_proxy("facebook", 0).unwrap();
    assert_eq!(first.host, "192.168.1.100");
    for t in 0..5 {
        r.report("192.168.1.100", 8080, false, t);
    }
    assert_eq!(r.get_current_proxy("facebook", 10).unwrap().host, "192.168.1.101");
}

#[test]
fn cookie_stored_twice_keeps_latest_value() {
    let mut store = CookieStore::new();
    store.store_cookies("p", vec![cookie("a", "1", None)], 0);
    store.store_cookies("p", vec![cookie("a", "2", None)], 0);
    let jar = store.get_cookies("p", 0);
    assert_eq!(jar.len(), 1);
    assert_eq!(jar[0].value, "2");
}

#[test]
fn expired_cookie_is_not_stored() {
    let mut store = CookieStore::new();
    store.store_cookies("p", vec![cookie("a", "1", None)], 0);
    store.store_cookies("p", vec![cookie("a", "2", Some(5))], 10);
    let jar = store.get_cookies("p", 10);
    assert_eq!(jar.len(), 1);
    assert_eq!(jar[0].value, "1");
    store.store_cookies("p", vec![cookie("b", "3", Some(20))], 10);
    assert_eq!(store.get_cookies("p", 15).len(), 2);
    assert_eq!(store.get_cookies("p", 20).len(), 1);
    assert!(cookie("x", "y", Some(20)).is_expired(20));
}

#[test]
fn fifty_get_or_create_calls_share_one_session() {
    let mut m = SessionManager::new();
    let vp = viewport_from_draw(0, 0);
    let first = m.get_session_with("platformX", 1000, "sess_first".to_string(), vp);
    for i in 1..50 {
        let s = m.get_session_with("platformX", 1000, format!("sess_{}", i), vp);
        assert_eq!(s.session_id, first.session_id);
    }
    assert_eq!(m.get_session_stats(1000).active_sessions, 1);
}

#[test]
fn expired_session_is_replaced() {
    let mut m = SessionManager::new();
    let vp = viewport_from_draw(1, 500);
    let old = m.get_session_with("p", 0, "sess_old".to_string(), vp);
    let again = m.get_session_with("p", 1800000, "sess_new".to_string(), vp);
    assert_eq!(again.session_id, old.session_id);
    let new = m.get_session_with("p", 1800000 + 1801000, "sess_new".to_string(), vp);
    assert_eq!(new.session_id, "sess_new");
    assert_eq!(new.request_count, 0);
}

#[test]
fn random_session_ids_have_the_documented_shape() {
    let mut m = SessionManager::new();
    let s = m.get_session("facebook", 0);
    assert_eq!(s.session_id.len(), 21);
    assert!(s.session_id.starts_with("sess_"));
    assert!(s.viewport.device_pixel_ratio_milli >= 1000 && s.viewport.device_pixel_ratio_milli < 2000);
    assert_eq!(s.headers.len(), 9);
}

#[test]
fn outcomes_and_cleanup() {
    let mut m = SessionManager::new_with_config(SessionConfig { session_timeout_ms: 100, ..SessionConfig::default() });
    let vp = Viewport { width: 1, height: 1, device_pixel_ratio_milli: 1000 };
    m.get_session_with("a", 0, "sa".to_string(), vp);
    m.get_session_with("b", 0, "sb".to_string(), vp);
    m.update_session("a", true, 50);
    m.update_session("a", false, 60);
    let stats = m.get_session_stats(60);
    assert_eq!(stats.total_requests, 2);
    assert_eq!(stats.total_successes, 1);
    assert_eq!(stats.overall_success_rate_ppm, 500000);
    assert_eq!(m.cleanup_expired_sessions(150), 1);
    assert_eq!(m.get_session_stats(150).active_sessions, 1);
    assert!(m.has_valid_session("a", 150));
    assert!(!m.has_valid_session("b", 150));
}

#[test]
fn session_headers_by_platform() {
    assert_eq!(generate_session_headers("amazon").len(), 6);
    let h = generate_session_headers("instagram");
    assert_eq!(h.len(), 9);
    assert_eq!(h[8], ("Sec-Fetch-Site".to_string(), "none".to_string()));
}

#[test]
fn delay_is_base_plus_jitter_with_a_floor() {
    let c = DispatchConfig { base_delay_ms: 1000, variance_ms: 300, min_delay_ms: 800, failure_threshold: 3 };
    assert_eq!(compute_delay(&c, 0), 800);
    assert_eq!(compute_delay(&c, 300), 1000);
    assert_eq!(compute_delay(&c, 600), 1300);
}

#[test]
fn dispatcher_prepares_and_rerotates_after_failures() {
    let limiter = DistributedRateLimiter::new(1, 10, 0).unwrap();
    let rotator = ProxyRotator::new(0);
    let sessions = SessionManager::new();
    let config = DispatchConfig { base_delay_ms: 100, variance_ms: 0, min_delay_ms: 0, failure_threshold: 2 };
    let mut d = Dispatcher::new(limiter, rotator, sessions, config);
    let vp = viewport_from_draw(2, 0);
    let first = match d.prepare_with("amazon", "amazon.com", 0, "s1".to_string(), vp, 0) {
        Prepared::Ready(desc) => desc,
        Prepared::Wait(_) => panic!("first request must be admitted"),
    };
    assert_eq!(first.proxy.as_ref().unwrap().host, "10.0.1.100");
    assert_eq!(first.delay_ms, 100);
    assert_eq!(first.headers.len(), 6);
    match d.prepare_with("amazon", "amazon.com", 10, "s2".to_string(), vp, 0) {
        Prepared::Wait(ms) => assert_eq!(ms, 990),
        Prepared::Ready(_) => panic!("domain quota must hold"),
    }
    d.report("amazon", "10.0.1.100", 8080, false, 20);
    d.report("amazon", "10.0.1.100", 8080, false, 30);
    let next = match d.prepare_with("amazon", "amazon.com", 1000, "s3".to_string(), vp, 0) {
        Prepared::Ready(desc) => desc,
        Prepared::Wait(_) => panic!("quota has refilled"),
    };
    assert_eq!(next.proxy.unwrap().host, "10.0.1.101");
    assert_eq!(next.session.session_id, "s1");
    assert_eq!(next.session.request_count, 2);
}

#[test]
fn rotator_health_check_folds_probe_results() {
    let mut r = ProxyRotator::new(0);
    let results = vec![vec![true, false, true], vec![true, true], vec![false, false], vec![true, false]];
    assert_eq!(r.health_check_all(&results, 7), 5);
    assert_eq!(r.get_proxy_stats().healthy_proxies, 9);
}

#[test]
fn dispatcher_prepare_draws_a_session_and_delay() {
    let limiter = DistributedRateLimiter::new(5, 5, 0).unwrap();
    let config = DispatchConfig { base_delay_ms: 500, variance_ms: 100, min_delay_ms: 450, failure_threshold: 3 };
    let mut d = Dispatcher::new(limiter, ProxyRotator::new(0), SessionManager::new(), config);
    match d.prepare("instagram", "instagram.com", 0) {
        Prepared::Ready(desc) => {
            assert!(desc.delay_ms >= 450 && desc.delay_ms <= 600);
            assert!(desc.session.session_id.starts_with("sess_"));
            assert_eq!(desc.proxy.unwrap().host, "192.168.1.100");
            assert!(desc.cookies.is_empty());
        },
        Prepared::Wait(_) => panic!("first request must be admitted"),
    }
    let (l, p, s) = d.get_stats(0);
    assert_eq!(l.total_domains, 1);
    assert_eq!(p.active_sessions, 1);
    assert_eq!(s.active_sessions, 1);
}

#[test]
fn fingerprint_profile_and_config_updates() {
    let mut m = SessionManager::new();
    let vp = viewport_from_draw(3, 999);
    assert_eq!((vp.width, vp.height, vp.device_pixel_ratio_milli), (1536, 864, 1999));
    m.get_session_with("p", 0, "s".to_string(), vp);
    m.attach_fingerprint("p", vec![1, 2, 3]);
    assert_eq!(m.get_session_with("p", 1, "t".to_string(), vp).fingerprint, vec![1, 2, 3]);
    m.update_config(SessionConfig { session_timeout_ms: 5, ..SessionConfig::default() });
    assert_eq!(m.get_config().session_timeout_ms, 5);
    assert_eq!(m.get_session_with("p", 100, "u".to_string(), vp).session_id, "u");
}
