use kitsune_engine::shaping::{CacheStep, ShapingCache, TextCacheKey};

fn key(text: &str, size: u32) -> TextCacheKey {
    TextCacheKey { text: text.to_string(), font_size_u32: size, color: [0, 0, 0, 255] }
}

#[test]
fn test_text_renderer_new() {
    let _c = ShapingCache::new();
}

#[test]
fn test_prepare_zero_commands() {
    let c = ShapingCache::new();
    assert_eq!(c.len(), 0);
}

#[test]
fn test_cache_hit_and_miss() {
    let mut c = ShapingCache::new();
    assert!(matches!(c.lookup(key("Hello", 1600)), CacheStep::Miss { ref evicted } if evicted.is_empty()));
    assert_eq!(c.len(), 1);
    assert!(matches!(c.lookup(key("Hello", 1600)), CacheStep::Hit));
    assert_eq!(c.len(), 1);
    assert!(matches!(c.lookup(key("Hello", 2400)), CacheStep::Miss { .. }));
    assert_eq!(c.len(), 2);
    let mut other_colour = key("Hello", 1600);
    other_colour.color = [255, 0, 0, 255];
    assert!(!c.contains(&other_colour));
    assert!(c.contains(&key("Hello", 2400)));
}

#[test]
fn test_prepare_50_commands() {
    let mut c = ShapingCache::new();
    for i in 0..50 {
        c.lookup(key(&format!("word{i}"), 1400));
    }
    assert_eq!(c.len(), 50);
}

#[test]
fn shaping_cache_evicts_the_hundred_oldest_past_five_hundred() {
    let mut c = ShapingCache::new();
    for i in 0..500 {
        assert!(matches!(c.lookup(key(&format!("k{i}"), 100)), CacheStep::Miss { ref evicted } if evicted.is_empty()));
    }
    assert_eq!(c.len(), 500);
    // Using k0 again makes it the newest, so k1 is now the oldest.
    assert!(matches!(c.lookup(key("k0", 100)), CacheStep::Hit));
    match c.lookup(key("new", 100)) {
        CacheStep::Miss { evicted } => {
            assert_eq!(evicted.len(), 100);
            assert_eq!(evicted[0].text, "k1");
            assert_eq!(evicted[99].text, "k100");
        }
        CacheStep::Hit => panic!("a new key cannot hit"),
    }
    assert_eq!(c.len(), 401);
    assert!(c.contains(&key("k0", 100)));
    assert!(c.contains(&key("new", 100)));
    assert!(!c.contains(&key("k1", 100)));
}
