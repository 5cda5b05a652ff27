use kitsune_engine::net::{
    apply_privacy_protections, cache_key, cached_max_age, detect_fingerprinting_vectors, error_page,
    failure_page, filter_headers, internal_page, internal_status, is_cacheable, is_tracker,
    matching_trackers, next_redirect, parse_u64, privacy_user_agent, url_host, HeaderRule, HttpMethod,
    InternalPage, PrivacyAwareRequest, RequestPrivacySettings,
};

fn request(url: &str, headers: Vec<(&str, &str)>) -> PrivacyAwareRequest {
    PrivacyAwareRequest {
        url: url.to_string(),
        method: HttpMethod::Get,
        headers: headers.into_iter().map(|(a, b)| (a.to_string(), b.to_string())).collect(),
        body: None,
        top_level_origin: "example.com".to_string(),
        privacy: RequestPrivacySettings::default(),
    }
}

#[test]
fn test_tracker_detection() {
    assert!(is_tracker("www.google-analytics.com"));
    assert!(is_tracker("pixel.doubleclick.net"));
    assert!(!is_tracker("example.com"));
}

#[test]
fn test_privacy_headers_injected() {
    let mut request = request("https://example.com", vec![]);
    let report = apply_privacy_protections(&mut request);
    assert!(report.injected_headers.contains(&"DNT: 1".to_string()));
    assert!(report.injected_headers.contains(&"Sec-GPC: 1".to_string()));
}

#[test]
fn test_referer_stripped() {
    let mut request = request(
        "https://example.com",
        vec![("Referer", "https://secret.com"), ("Accept", "text/html")],
    );
    let report = apply_privacy_protections(&mut request);
    assert!(report.stripped_headers.contains(&"Referer".to_string()));
    assert!(!request.headers.iter().any(|(n, _)| n == "Referer"));
}

#[test]
fn tracker_request_is_reported() {
    let mut request = request("https://pixel.doubleclick.net/x", vec![]);
    let report = apply_privacy_protections(&mut request);
    assert_eq!(report.blocked_trackers, vec!["doubleclick.net".to_string()]);
    assert_eq!(matching_trackers("ads.facebook.net"), vec!["facebook.net".to_string()]);
    assert_eq!(url_host("https://a.example.org/p"), "a.example.org");
    assert_eq!(url_host("not a url"), "");
}

#[test]
fn privacy_settings_off_inject_nothing() {
    let mut req = request("https://example.com", vec![("Referer", "r")]);
    req.privacy.send_dnt = false;
    req.privacy.send_gpc = false;
    req.privacy.strip_referer = false;
    let report = apply_privacy_protections(&mut req);
    assert!(report.injected_headers.is_empty());
    assert!(report.stripped_headers.is_empty());
    assert_eq!(req.headers, vec![("Referer".to_string(), "r".to_string())]);
}

#[test]
fn header_rules_filter_by_name() {
    let mut h = vec![
        ("Authorization".to_string(), "x".to_string()),
        ("COOKIE".to_string(), "a=b".to_string()),
        ("Accept".to_string(), "*/*".to_string()),
    ];
    let gone = filter_headers(&mut h, HeaderRule::CrossOrigin);
    assert_eq!(gone, vec!["Authorization".to_string(), "COOKIE".to_string()]);
    assert_eq!(h, vec![("Accept".to_string(), "*/*".to_string())]);
    let mut c = vec![("cookie".to_string(), "1".to_string()), ("X".to_string(), "2".to_string())];
    assert_eq!(filter_headers(&mut c, HeaderRule::Cookie), vec!["cookie".to_string()]);
}

#[test]
fn fingerprinting_vectors_detected() {
    let headers = vec![
        ("Accept-Language".to_string(), "en".to_string()),
        ("Sec-CH-UA".to_string(), "x".to_string()),
    ];
    let v = detect_fingerprinting_vectors(&headers);
    assert_eq!(v, vec![
        "Accept-Language (can fingerprint locale)".to_string(),
        "Sec-CH-UA (client hint fingerprinting)".to_string(),
    ]);
    assert!(detect_fingerprinting_vectors(&vec![]).is_empty());
    assert!(privacy_user_agent().starts_with("Mozilla/5.0"));
}

#[test]
fn internal_pages_and_statuses() {
    assert_eq!(internal_page("welcome"), InternalPage::Welcome);
    assert_eq!(internal_page(""), InternalPage::Welcome);
    assert_eq!(internal_page("//demo/shop"), InternalPage::Shop);
    assert_eq!(internal_page("privacy"), InternalPage::Privacy);
    assert_eq!(internal_page("nonexistent"), InternalPage::NotFound);
    assert_eq!(internal_status(InternalPage::NotFound), 404);
    assert_eq!(internal_status(InternalPage::Shop), 200);
}

#[test]
fn redirects_are_limited_to_ten() {
    assert_eq!(next_redirect(0), Some(1));
    assert_eq!(next_redirect(9), Some(10));
    assert_eq!(next_redirect(10), None);
}

#[test]
fn cache_rules() {
    let h = vec![
        ("Cache-Control".to_string(), "public, max-age=60".to_string()),
        ("cache-control".to_string(), "max-age= 120 , private".to_string()),
    ];
    assert_eq!(cached_max_age(&h), 120);
    assert!(is_cacheable(&h));
    let z = vec![("Cache-Control".to_string(), "max-age=0".to_string())];
    assert!(!is_cacheable(&z));
    assert_eq!(cached_max_age(&z), 0);
    assert_eq!(parse_u64("+42"), Some(42));
    assert_eq!(parse_u64("18446744073709551616"), None);
    assert_eq!(parse_u64(""), None);
    let k = cache_key(HttpMethod::Get, "abc").unwrap();
    assert_eq!(k, "ba7816bf8f01cfea414140de5dae2223b00361a396177a9cb410ff61f20015ad");
    assert!(cache_key(HttpMethod::Post, "abc").is_none());
}

#[test]
fn error_and_failure_pages() {
    assert!(error_page(404).unwrap().contains("Page not found"));
    assert!(error_page(503).unwrap().contains("Server error"));
    assert!(error_page(200).is_none());
    assert!(failure_page(true, "", "h").contains("taking too long"));
    assert!(failure_page(false, "dns error", "h.example").contains("Can't find h.example."));
    assert!(failure_page(false, "invalid certificate", "h").contains("Connection not private"));
    assert!(failure_page(false, "reset", "h").contains("Connection Error"));
    assert_eq!(HttpMethod::Options.to_string(), "OPTIONS");
}

use kitsune_engine::net::{internal_response, NOT_FOUND_PAGE};

#[test]
fn internal_pages_are_served_as_internal_html() {
    let page = internal_page("nonexistent");
    assert_eq!(page, InternalPage::NotFound);
    let resp = internal_response(page, b"ignored".to_vec(), "kitsune://nonexistent".to_string());
    assert_eq!(resp.status, 404);
    assert!(resp.is_internal);
    assert!(resp.is_secure);
    assert_eq!(resp.body, NOT_FOUND_PAGE.as_bytes().to_vec());
    assert!(String::from_utf8_lossy(&resp.body).contains("404 Not Found"));
    let page = internal_page("welcome");
    let resp = internal_response(page, b"<html>KitsuneEngine</html>".to_vec(), "kitsune://welcome".to_string());
    assert_eq!(resp.status, 200);
    assert_eq!(resp.body, b"<html>KitsuneEngine</html>".to_vec());
    assert_eq!(resp.headers, vec![("Content-Type".to_string(), "text/html".to_string())]);
    assert_eq!(resp.final_url, "kitsune://welcome");
    assert!(resp.privacy_report.blocked_trackers.is_empty());
}

#[test]
fn test_unknown_internal_url() {
    let page = internal_page("nonexistent");
    let resp = internal_response(page, Vec::new(), "kitsune://nonexistent".to_string());
    assert_eq!(resp.status, 404);
    assert!(resp.is_internal);
}
