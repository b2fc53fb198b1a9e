//! Human-like navigation patterns: the steps of a page visit and where it
//! claims to come from.
use vstd::prelude::*;

use crate::random::random_below;

verus! {

#[derive(PartialEq, Eq, Structural, Debug, Clone, Copy)]
pub enum NavigationType {
    PageLoad,
    LinkClick,
    BackNavigation,
}

/// One step of a visit; durations in milliseconds.
#[derive(PartialEq, Eq, Structural, Debug, Clone, Copy)]
pub enum NavigationAction {
    LoadPage,
    WaitForLoad(u64),
    MouseHover(u64),
    Click,
    ScrollToTop,
    BackButton,
}

pub enum ReferrerBehavior {
    DirectNavigation,
    SearchEngine(String),
    SocialMedia(String),
    KeepReferrer,
}

pub struct NavigationBehavior {
    pub actions: Vec<NavigationAction>,
    pub referrer_behavior: ReferrerBehavior,
}

pub open spec fn search_engine(i: int) -> Seq<char> {
    if i == 0 {
        "https://www.google.com/"@
    } else if i == 1 {
        "https://www.bing.com/"@
    } else {
        "https://duckduckgo.com/"@
    }
}

pub open spec fn social_site(i: int) -> Seq<char> {
    if i == 0 {
        "https://www.facebook.com/"@
    } else if i == 1 {
        "https://twitter.com/"@
    } else {
        "https://www.linkedin.com/"@
    }
}

/// The referrer for a draw of its kind (below 4) and of the site (below 3).
pub fn referrer_from_draw(kind: u64, site: u64) -> (r: ReferrerBehavior)
    requires
        kind < 4,
        site < 3,
    ensures
        kind == 0 ==> r is DirectNavigation,
        kind == 1 ==> (r matches ReferrerBehavior::SearchEngine(s) && s@ == search_engine(site as int)),
        kind == 2 ==> (r matches ReferrerBehavior::SocialMedia(s) && s@ == social_site(site as int)),
        kind == 3 ==> r is KeepReferrer,
{
    if kind == 0 {
        ReferrerBehavior::DirectNavigation
    } else if kind == 1 {
        let s = if site == 0 {
            "https://www.google.com/"
        } else if site == 1 {
            "https://www.bing.com/"
        } else {
            "https://duckduckgo.com/"
        };
        ReferrerBehavior::SearchEngine(String::from_str(s))
    } else if kind == 2 {
        let s = if site == 0 {
            "https://www.facebook.com/"
        } else if site == 1 {
            "https://twitter.com/"
        } else {
            "https://www.linkedin.com/"
        };
        ReferrerBehavior::SocialMedia(String::from_str(s))
    } else {
        ReferrerBehavior::KeepReferrer
    }
}

/// A referrer drawn at random: each kind, and each site, equally likely.
pub fn generate_referrer_behavior() -> (r: ReferrerBehavior) {
    let kind = random_below(4);
    let site = random_below(3);
    referrer_from_draw(kind, site)
}

/// Width of the range that the first and second wait of a visit are drawn
/// from.
pub open spec fn draw_ranges(t: NavigationType) -> (u64, u64) {
    match t {
        NavigationType::PageLoad => (2000, 1),
        NavigationType::LinkClick => (600, 1200),
        NavigationType::BackNavigation => (1000, 1),
    }
}

/// The steps of a visit for the draws: a page load waits 1000 to 2999 ms
/// and scrolls to the top; a link click hovers 200 to 799 ms, clicks and
/// waits 800 to 1999 ms; going back waits 500 to 1499 ms and keeps the
/// referrer.
pub fn navigation_from_draw(nav_type: NavigationType, first: u64, second: u64, referrer: ReferrerBehavior) -> (r: NavigationBehavior)
    requires
        first < draw_ranges(nav_type).0,
        second < draw_ranges(nav_type).1,
    ensures
        nav_type == NavigationType::PageLoad ==> r.actions@ == seq![
            NavigationAction::LoadPage,
            NavigationAction::WaitForLoad((1000 + first) as u64),
            NavigationAction::ScrollToTop,
        ] && r.referrer_behavior == referrer,
        nav_type == NavigationType::LinkClick ==> r.actions@ == seq![
            NavigationAction::MouseHover((200 + first) as u64),
            NavigationAction::Click,
            NavigationAction::WaitForLoad((800 + second) as u64),
        ] && r.referrer_behavior == referrer,
        nav_type == NavigationType::BackNavigation ==> r.actions@ == seq![
            NavigationAction::BackButton,
            NavigationAction::WaitForLoad((500 + first) as u64),
        ] && r.referrer_behavior is KeepReferrer,
{
    let mut actions: Vec<NavigationAction> = Vec::new();
    match nav_type {
        NavigationType::PageLoad => {
            actions.push(NavigationAction::LoadPage);
            actions.push(NavigationAction::WaitForLoad(1000 + first));
            actions.push(NavigationAction::ScrollToTop);
            NavigationBehavior { actions, referrer_behavior: referrer }
        },
        NavigationType::LinkClick => {
            actions.push(NavigationAction::MouseHover(200 + first));
            actions.push(NavigationAction::Click);
            actions.push(NavigationAction::WaitForLoad(800 + second));
            NavigationBehavior { actions, referrer_behavior: referrer }
        },
        NavigationType::BackNavigation => {
            actions.push(NavigationAction::BackButton);
            actions.push(NavigationAction::WaitForLoad(500 + first));
            NavigationBehavior { actions, referrer_behavior: ReferrerBehavior::KeepReferrer }
        },
    }
}

/// The steps of a visit of `nav_type` with waits and referrer drawn at
/// random.
pub fn generate_navigation_behavior(nav_type: NavigationType) -> (r: NavigationBehavior)
    ensures
        nav_type == NavigationType::BackNavigation ==> r.referrer_behavior is KeepReferrer,
{
    let (a, b) = match nav_type {
        NavigationType::PageLoad => (2000u64, 1u64),
        NavigationType::LinkClick => (600, 1200),
        NavigationType::BackNavigation => (1000, 1),
    };
    let first = random_below(a);
    let second = random_below(b);
    let referrer = generate_referrer_behavior();
    navigation_from_draw(nav_type, first, second, referrer)
}

} // verus!
