use dhcp_server::sources::cache::{
    DhcpRestSourceHttp, DhcpRestSourceHttpCacheItem, DhcpRestSourceHttpCacheKey,
};
use dhcp_server::sources::rest::HttpMethod;

fn json(text: &str) -> serde_json::Value {
    serde_json::from_str(text).unwrap()
}

#[test]
fn entry_expires_after_its_duration() {
    let item = DhcpRestSourceHttpCacheItem::new((), 1000);
    assert!(!item.expired(500, 1000));
    assert!(!item.expired(500, 1499));
    assert!(!item.expired(500, 1500));
    assert!(item.expired(500, 1501));
    assert!(!item.expired(0, 1000));
    assert!(item.expired(0, 1001));
    assert!(!item.expired(500, 0));
    let late = DhcpRestSourceHttpCacheItem::new((), u128::MAX - 1);
    assert!(!late.expired(10, u128::MAX));
    assert!(late.expired(0, u128::MAX));
}

#[test]
fn stored_response_is_served_until_it_expires() {
    let mut cache = DhcpRestSourceHttp::new(50);
    assert_eq!(cache.expiration(), 50);
    assert_eq!(cache.lookup(HttpMethod::Get, "http://a/", 0), None);
    cache.store(HttpMethod::Get, "http://a/", &json("{\"a\": 1}"), 100);
    for now in [100, 120, 150] {
        assert_eq!(cache.lookup(HttpMethod::Get, "http://a/", now), Some(json("{\"a\": 1}")));
    }
    assert_eq!(cache.lookup(HttpMethod::Get, "http://a/", 151), None);
    assert_eq!(cache.lookup(HttpMethod::Get, "http://a/", 120), None);
}

#[test]
fn cache_keys_are_method_and_url() {
    let mut cache = DhcpRestSourceHttp::new(50);
    cache.store(HttpMethod::Get, "http://a/", &json("1"), 100);
    cache.store(HttpMethod::Post, "http://a/", &json("2"), 100);
    cache.store(HttpMethod::Get, "http://b/", &json("3"), 100);
    assert_eq!(cache.lookup(HttpMethod::Get, "http://a/", 110), Some(json("1")));
    assert_eq!(cache.lookup(HttpMethod::Post, "http://a/", 110), Some(json("2")));
    assert_eq!(cache.lookup(HttpMethod::Get, "http://b/", 110), Some(json("3")));
    assert_eq!(cache.lookup(HttpMethod::Put, "http://a/", 110), None);
    assert_eq!(cache.lookup(HttpMethod::Get, "http://a", 110), None);
    cache.store(HttpMethod::Get, "http://a/", &json("4"), 140);
    assert_eq!(cache.lookup(HttpMethod::Get, "http://a/", 160), Some(json("4")));
    assert_eq!(cache.lookup(HttpMethod::Post, "http://a/", 160), None);
    assert_eq!(cache.lookup(HttpMethod::Get, "http://a/", 191), None);
}

#[test]
fn cache_without_expiration_stores_nothing() {
    let mut cache = DhcpRestSourceHttp::new(0);
    cache.store(HttpMethod::Get, "http://a/", &json("1"), 100);
    assert_eq!(cache.lookup(HttpMethod::Get, "http://a/", 100), None);
}

#[test]
fn cache_key_label() {
    let key = DhcpRestSourceHttpCacheKey { url: "http://a/b".to_string(), method: HttpMethod::Patch };
    assert_eq!(key.label(), "PATCH - http://a/b");
    assert!(key.matches(HttpMethod::Patch, "http://a/b"));
    assert!(!key.matches(HttpMethod::Put, "http://a/b"));
    assert!(!key.matches(HttpMethod::Patch, "http://a/"));
}
