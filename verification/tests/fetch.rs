use kitsune_engine::fetch::{cache_fresh, follow_redirect, merge_report, prepare_hop};
use kitsune_engine::images::{texture_bytes, ImageBudget, ImageId, DEFAULT_MAX_BYTES};
use kitsune_engine::net::{HttpMethod, NetError, PrivacyAwareRequest, PrivacyReport, RequestPrivacySettings};

fn request(url: &str, headers: Vec<(&str, &str)>) -> PrivacyAwareRequest {
    PrivacyAwareRequest {
        url: url.to_string(),
        method: HttpMethod::Get,
        headers: headers.into_iter().map(|(a, b)| (a.to_string(), b.to_string())).collect(),
        body: None,
        top_level_origin: String::new(),
        privacy: RequestPrivacySettings::default(),
    }
}

#[test]
fn hop_adds_user_agent_and_cookies() {
    let mut req = request("https://example.com/", vec![("Cookie", "stale=1"), ("Referer", "https://x")]);
    let mut merged = None;
    assert!(prepare_hop(&mut req, &mut merged, Some("a=b".to_string())).is_ok());
    let names: Vec<&str> = req.headers.iter().map(|(n, _)| n.as_str()).collect();
    assert_eq!(names, vec!["DNT", "Sec-GPC", "User-Agent", "Cookie"]);
    assert_eq!(req.headers[3].1, "a=b");
    let report = merged.unwrap();
    assert_eq!(report.stripped_headers, vec!["Referer".to_string()]);
    assert_eq!(report.injected_headers, vec!["DNT: 1".to_string(), "Sec-GPC: 1".to_string()]);
}

#[test]
fn hop_keeps_an_existing_user_agent() {
    let mut req = request("https://example.com/", vec![("user-agent", "mine")]);
    let mut merged = None;
    assert!(prepare_hop(&mut req, &mut merged, None).is_ok());
    assert!(!req.headers.iter().any(|(n, _)| n == "User-Agent"));
}

#[test]
fn hop_to_tracker_is_refused() {
    let mut req = request("https://stats.google-analytics.com/collect", vec![]);
    let mut merged = None;
    match prepare_hop(&mut req, &mut merged, None) {
        Err(NetError::TrackerBlocked { domain }) => assert_eq!(domain, "stats.google-analytics.com"),
        _ => panic!("expected a tracker block"),
    }
    assert_eq!(merged.unwrap().blocked_trackers, vec!["google-analytics.com".to_string()]);
}

#[test]
fn reports_merge_hop_by_hop() {
    let hop = PrivacyReport {
        stripped_headers: vec!["A".to_string()],
        injected_headers: vec![],
        blocked_trackers: vec![],
        fingerprinting_vectors: vec![],
    };
    let mut acc = None;
    merge_report(&mut acc, &hop);
    merge_report(&mut acc, &hop);
    assert_eq!(acc.unwrap().stripped_headers, vec!["A".to_string(), "A".to_string()]);
}

#[test]
fn redirects_strip_credentials_across_origins() {
    let mut headers = vec![
        ("Authorization".to_string(), "t".to_string()),
        ("Accept".to_string(), "*/*".to_string()),
    ];
    let mut merged = Some(PrivacyReport {
        stripped_headers: vec![],
        injected_headers: vec![],
        blocked_trackers: vec![],
        fingerprinting_vectors: vec![],
    });
    assert_eq!(follow_redirect(&mut headers, &mut merged, 0, false).ok(), Some(1));
    assert_eq!(headers.len(), 2);
    assert_eq!(follow_redirect(&mut headers, &mut merged, 1, true).ok(), Some(2));
    assert_eq!(headers, vec![("Accept".to_string(), "*/*".to_string())]);
    assert_eq!(merged.as_ref().unwrap().stripped_headers, vec!["Authorization".to_string()]);
    match follow_redirect(&mut headers, &mut merged, 10, true) {
        Err(NetError::ConnectionFailed(m)) => assert_eq!(m, "Too many redirects"),
        _ => panic!("expected too many redirects"),
    }
}

#[test]
fn cached_responses_expire() {
    let h = vec![("Cache-Control".to_string(), "max-age=60".to_string())];
    assert!(cache_fresh(&h, 59));
    assert!(!cache_fresh(&h, 60));
    assert!(!cache_fresh(&vec![], 0));
}

#[test]
fn image_budget_evicts_least_recently_used() {
    let mut b = ImageBudget::new(100);
    assert!(b.upload(ImageId(1), 40).is_empty());
    assert!(b.upload(ImageId(2), 40).is_empty());
    b.touch(ImageId(1));
    assert_eq!(b.upload(ImageId(3), 40), vec![ImageId(2)]);
    assert!(b.contains(ImageId(1)) && b.contains(ImageId(3)) && !b.contains(ImageId(2)));
    assert_eq!(b.total_bytes(), 80);
    assert!(b.upload(ImageId(3), 40).is_empty());
    b.evict(ImageId(1));
    assert_eq!(b.total_bytes(), 40);
    assert_eq!(b.upload(ImageId(4), 500), vec![ImageId(3), ImageId(4)]);
    assert_eq!(b.total_bytes(), 0);
    assert_eq!(texture_bytes(2, 3), 24);
}

#[test]
fn test_upload_creates_entry() {
    let mut cache = ImageBudget::new(DEFAULT_MAX_BYTES);
    assert!(cache.upload(ImageId(1), texture_bytes(1, 1)).is_empty());
    assert!(cache.contains(ImageId(1)));
}

#[test]
fn test_upload_idempotent() {
    let mut cache = ImageBudget::new(DEFAULT_MAX_BYTES);
    cache.upload(ImageId(2), texture_bytes(1, 1));
    let bytes_before = cache.total_bytes();
    cache.upload(ImageId(2), texture_bytes(1, 1));
    assert_eq!(cache.total_bytes(), bytes_before, "second upload must be no-op");
}

#[test]
fn test_get_unknown_returns_none() {
    let cache = ImageBudget::new(DEFAULT_MAX_BYTES);
    assert!(!cache.contains(ImageId(99)));
}

#[test]
fn test_evict_removes_entry() {
    let mut cache = ImageBudget::new(DEFAULT_MAX_BYTES);
    cache.upload(ImageId(3), texture_bytes(1, 1));
    assert!(cache.contains(ImageId(3)));
    cache.evict(ImageId(3));
    assert!(!cache.contains(ImageId(3)));
    assert_eq!(cache.total_bytes(), 0);
}

use kitsune_engine::fetch::{internal_route, redirect_step, set_cookie_values, top_level_origin_for};

#[test]
fn internal_routes_and_top_level_origins() {
    assert_eq!(internal_route("kitsune://welcome"), Some("welcome".to_string()));
    assert_eq!(internal_route("kitsune://demo/shop"), Some("demo/shop".to_string()));
    assert_eq!(internal_route("https://example.com/"), None);
    assert_eq!(internal_route("not a url"), None);
    assert_eq!(top_level_origin_for("", "https://shop.example/cart?x=1"), "https://shop.example");
    assert_eq!(top_level_origin_for("https://a.example", "https://shop.example/"), "https://a.example");
}

#[test]
fn redirects_join_location_and_strip_credentials_across_origins() {
    let mut headers = vec![
        ("Cookie".to_string(), "a=b".to_string()),
        ("Accept".to_string(), "*/*".to_string()),
    ];
    let mut merged = None;
    let same = redirect_step("https://a.example/x/y", Some("z"), 302, &mut headers, &mut merged, 0).unwrap();
    assert_eq!(same, Some(("https://a.example/x/z".to_string(), 1)));
    assert_eq!(headers.len(), 2);
    let cross = redirect_step("https://a.example/x/z", Some("https://b.example/"), 301, &mut headers, &mut merged, 1).unwrap();
    assert_eq!(cross, Some(("https://b.example/".to_string(), 2)));
    assert_eq!(headers, vec![("Accept".to_string(), "*/*".to_string())]);
    assert_eq!(redirect_step("https://b.example/", Some("/n"), 200, &mut headers, &mut merged, 2).unwrap(), None);
    assert_eq!(redirect_step("https://b.example/", None, 302, &mut headers, &mut merged, 2).unwrap(), None);
    assert!(matches!(
        redirect_step("https://b.example/", Some("/n"), 302, &mut headers, &mut merged, 10),
        Err(NetError::ConnectionFailed(_))
    ));
}

#[test]
fn set_cookie_values_are_picked_in_any_case() {
    let h = vec![
        ("set-cookie".to_string(), "a=1".to_string()),
        ("Content-Type".to_string(), "text/html".to_string()),
        ("Set-Cookie".to_string(), "b=2".to_string()),
    ];
    assert_eq!(set_cookie_values(&h), vec!["a=1".to_string(), "b=2".to_string()]);
}
