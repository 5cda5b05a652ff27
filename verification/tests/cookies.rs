use kitsune_engine::cookies::{cookie_header_line, PartitionedCookieJar};

#[test]
fn cookies_stay_in_their_partition() {
    let mut jar = PartitionedCookieJar::new();
    jar.store_cookie("https://shop.example/cart", "https://shop.example", "sid=42; Path=/");
    jar.store_cookie("https://shop.example/cart", "https://shop.example", "theme=dark; Path=/");
    assert_eq!(
        jar.get_cookies("https://shop.example/cart", "https://shop.example").map(|s| {
            let mut parts: Vec<String> = s.split("; ").map(|p| p.to_string()).collect();
            parts.sort();
            parts
        }),
        Some(vec!["sid=42".to_string(), "theme=dark".to_string()])
    );
    // The same shop embedded under another top-level site sees nothing.
    assert_eq!(jar.get_cookies("https://shop.example/cart", "https://news.example"), None);
    // Another origin under the same top-level site sees nothing either.
    assert_eq!(jar.get_cookies("https://cdn.example/x", "https://shop.example"), None);
    // Text that is not a URL stores and finds nothing.
    jar.store_cookie("not a url", "https://shop.example", "x=1");
    assert_eq!(jar.get_cookies("not a url", "https://shop.example"), None);
}

#[test]
fn cookie_lines_join_pairs() {
    assert_eq!(cookie_header_line(&vec![]), None);
    let pairs = vec![("a".to_string(), "1".to_string()), ("b".to_string(), "2".to_string())];
    assert_eq!(cookie_header_line(&pairs).as_deref(), Some("a=1; b=2"));
}

#[test]
fn stored_cookie_comes_back_only_for_its_partition() {
    let mut jar = PartitionedCookieJar::new();
    let u = "https://shop.example/";
    jar.store_cookie(u, "https://a.example", "sid=1");
    assert_eq!(jar.get_cookies(u, "https://a.example"), Some("sid=1".to_string()));
    assert_eq!(jar.get_cookies(u, "https://b.example"), None);
    jar.store_cookie(u, "https://a.example", " theme = dark ; Path=/");
    let line = jar.get_cookies(u, "https://a.example").unwrap();
    assert!(line.contains("sid=1") && line.contains("theme=dark"));
}
