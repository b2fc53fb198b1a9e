use swoop_dispatch::stealth::{
    generate_platform_user_agent, generate_platform_viewport, BrowserPool, BrowserPoolError, ChallengeType,
    ExtensionManager, ExtensionManifest, StealthConfig,
};
use swoop_dispatch::behavior::{
    generate_navigation_behavior, navigation_from_draw, referrer_from_draw, NavigationAction,
    NavigationType, ReferrerBehavior,
};

#[test]
fn page_load_steps() {
    let b = navigation_from_draw(NavigationType::PageLoad, 1999, 0, ReferrerBehavior::DirectNavigation);
    assert_eq!(b.actions, vec![NavigationAction::LoadPage, NavigationAction::WaitForLoad(2999), NavigationAction::ScrollToTop]);
    assert!(matches!(b.referrer_behavior, ReferrerBehavior::DirectNavigation));
}

#[test]
fn link_click_and_back_steps() {
    let b = navigation_from_draw(NavigationType::LinkClick, 0, 1199, ReferrerBehavior::KeepReferrer);
    assert_eq!(b.actions, vec![NavigationAction::MouseHover(200), NavigationAction::Click, NavigationAction::WaitForLoad(1999)]);
    let back = navigation_from_draw(NavigationType::BackNavigation, 10, 0, ReferrerBehavior::DirectNavigation);
    assert_eq!(back.actions, vec![NavigationAction::BackButton, NavigationAction::WaitForLoad(510)]);
    assert!(matches!(back.referrer_behavior, ReferrerBehavior::KeepReferrer));
}

#[test]
fn referrers() {
    assert!(matches!(referrer_from_draw(1, 2), ReferrerBehavior::SearchEngine(s) if s == "https://duckduckgo.com/"));
    assert!(matches!(referrer_from_draw(2, 1), ReferrerBehavior::SocialMedia(s) if s == "https://twitter.com/"));
    assert!(matches!(referrer_from_draw(3, 0), ReferrerBehavior::KeepReferrer));
    let g = generate_navigation_behavior(NavigationType::BackNavigation);
    assert_eq!(g.actions.len(), 2);
    assert!(matches!(g.referrer_behavior, ReferrerBehavior::KeepReferrer));
}


#[test]
fn stealth_defaults_and_extensions() {
    let c = StealthConfig::default();
    assert!(c.remove_webdriver_indicators && !c.block_images);
    assert_eq!(c.challenge_solving_timeout_ms, 30000);
    assert_ne!(ChallengeType::Cloudflare, ChallengeType::CustomJs);
    let m = ExtensionManifest::default();
    assert_eq!(m.permissions, vec!["storage".to_string(), "tabs".to_string()]);
    let mgr = ExtensionManager::new();
    assert_eq!(mgr.available_extensions.len(), 3);
    let picked = mgr.install_stealth_extensions();
    assert_eq!(picked.len(), 2);
    assert_ne!(picked[0].name, picked[1].name);
    let chosen = mgr.extensions_at(&vec![2, 0]);
    assert_eq!(chosen[0].name, "Honey");
    assert_eq!(chosen[1].version, "1.44.4");
}

#[test]
fn browser_pool_reuses_caps_and_closes() {
    let mut pool = BrowserPool::new();
    let a = pool.get_or_create_with("instagram", 5, "b1".to_string()).ok().unwrap();
    assert_eq!(a.browser_id, "b1");
    assert_eq!(a.viewport.width, 375);
    pool.return_browser(a);
    let again = pool.get_or_create_with("instagram", 6, "b2".to_string()).ok().unwrap();
    assert_eq!(again.browser_id, "b1");
    let mut open = vec![again];
    for i in 0..11 {
        open.push(pool.get_or_create_with("ebay", 7, format!("e{}", i)).ok().unwrap());
    }
    assert_eq!(pool.get_or_create_with("ebay", 8, "x".to_string()).err(), Some(BrowserPoolError::Exhausted));
    assert_eq!(pool.get_stats().total_instances, 12);
    for b in open.drain(1..) {
        pool.return_browser(b);
    }
    let stats = pool.get_stats();
    assert_eq!(stats.total_instances, 4);
    assert_eq!(stats.active_instances, 3);
    assert!(pool.get_or_create_browser("amazon", 9).is_ok());
    assert!(generate_platform_user_agent("ebay").contains("Firefox/121.0"));
    assert_eq!(generate_platform_viewport("facebook").device_pixel_ratio_milli, 1000);
}
