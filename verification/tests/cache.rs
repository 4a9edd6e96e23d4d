use road7::cache::{create_cache_key, default_cleanup_interval, default_serialize, Cache, CacheConfig, CacheEntry, CorsConfig};
use road7::headers::Headers;

fn config(ttl_seconds: u64, serialize: bool) -> CacheConfig {
    CacheConfig { ttl_seconds, max_size: 100, serialize, cleanup_interval_seconds: default_cleanup_interval() }
}

fn entry(body: &str, headers: Headers) -> CacheEntry {
    CacheEntry::from_response(200, headers, body.as_bytes().to_vec(), &None, 0)
}

#[test]
fn defaults_are_sixty_seconds_and_no_serialization() {
    assert_eq!(default_cleanup_interval(), 60);
    assert_eq!(default_serialize(), false);
}

#[test]
fn etag_defaults_to_quoted_md5_of_body() {
    let e = entry("hello", Headers::new());
    let expected = format!("\"{:x}\"", md5::compute("hello"));
    assert_eq!(e.etag.unwrap(), expected);
    assert_eq!(expected, "\"5d41402abc4b2a76b9719d911017c592\"");
}

#[test]
fn etag_and_last_modified_come_from_headers() {
    let mut h = Headers::new();
    h.insert("etag", b"\"v1\"".to_vec());
    h.insert("last-modified", b"Wed, 21 Oct 2015 07:28:00 GMT".to_vec());
    let e = entry("x", h);
    assert_eq!(e.etag.unwrap(), "\"v1\"");
    assert_eq!(e.last_modified.unwrap(), "Wed, 21 Oct 2015 07:28:00 GMT");
}

#[test]
fn vary_is_split_and_trimmed() {
    let mut h = Headers::new();
    h.insert("vary", b" Accept-Encoding ,User-Agent,, Origin\t".to_vec());
    let e = entry("x", h);
    assert_eq!(
        e.vary_headers.unwrap(),
        vec!["Accept-Encoding".to_string(), "User-Agent".to_string(), "".to_string(), "Origin".to_string()]
    );
    assert!(entry("x", Headers::new()).vary_headers.is_none());
}

#[test]
fn cors_values_default_when_unset() {
    let cors = Some(CorsConfig { enabled: false, allow_origin: Some("https://a.example".to_string()), allow_headers: None, allow_methods: None });
    let e = CacheEntry::from_response(200, Headers::new(), Vec::new(), &cors, 5);
    let c = e.cors_headers.unwrap();
    assert_eq!(c.allow_origin, "https://a.example");
    assert_eq!(c.allow_headers, "*");
    assert_eq!(c.allow_methods, "GET,POST,PUT,DELETE,OPTIONS,PATCH");
    assert_eq!(e.expires_at, 5);
}

#[test]
fn get_after_put_within_ttl() {
    let mut cache = Cache::new(&config(10, false));
    cache.put_at("k".to_string(), entry("body", Headers::new()), 1_000);
    let hit = cache.get_at("k", 5_000).unwrap();
    assert_eq!(hit.response, b"body".to_vec());
    assert_eq!(hit.expires_at, 11_000);
    assert!(cache.get_at("other", 5_000).is_none());
}

#[test]
fn expired_entries_are_missed_and_dropped() {
    let mut cache = Cache::new(&config(1, false));
    cache.put_at("k".to_string(), entry("body", Headers::new()), 1_000);
    assert!(cache.get_at("k", 2_000).is_none());
    assert!(cache.get_at("k", 0).is_none());
}

#[test]
fn serialized_cache_serves_the_body_back() {
    let mut cache = Cache::new(&config(10, true));
    cache.put_at("k".to_string(), entry("AB", Headers::new()), 0);
    let got = cache.get_at("k", 1).unwrap();
    assert_eq!(got.response, b"AB".to_vec());
    assert_eq!(got.status, 200);
}

#[test]
fn sweep_keeps_only_live_entries() {
    let mut cache = Cache::new(&config(1, false));
    cache.put_at("old".to_string(), entry("a", Headers::new()), 0);
    cache.put_at("new".to_string(), entry("b", Headers::new()), 5_000);
    cache.clean_expired_entries_at(3_000);
    assert!(cache.get_at("old", 0).is_none());
    assert!(cache.get_at("new", 3_000).is_some());
    cache.remove_expired("new");
    assert!(cache.get_at("new", 3_000).is_none());
}

#[test]
fn cache_key_depends_on_url_uri_and_varying_values() {
    let mut h1 = Headers::new();
    h1.insert("accept-encoding", b"gzip".to_vec());
    let mut h2 = Headers::new();
    h2.insert("accept-encoding", b"br".to_vec());
    let vary = vec!["Accept-Encoding".to_string()];
    let a = create_cache_key("http://b:1", "/x", &h1, Some(&vary));
    let b = create_cache_key("http://b:1", "/x", &h2, Some(&vary));
    let c = create_cache_key("http://b:1", "/x", &h1, None);
    let d = create_cache_key("http://b:1", "/x", &h2, None);
    let e = create_cache_key("http://b:1", "/y", &h1, None);
    assert_ne!(a, b);
    assert_eq!(c, d);
    assert_ne!(c, e);
    assert_eq!(a, create_cache_key("http://b:1", "/x", &h1, Some(&vary)));
    assert!(a.chars().all(|ch| ch.is_ascii_hexdigit() && !ch.is_ascii_uppercase()));
    assert!(!a.is_empty() && a.len() <= 16);
}

#[test]
fn absent_varying_headers_leave_the_key() {
    let h = Headers::new();
    let vary = vec!["Accept-Encoding".to_string(), "Origin".to_string()];
    assert_eq!(
        create_cache_key("http://b:1", "/x", &h, Some(&vary)),
        create_cache_key("http://b:1", "/x", &h, None)
    );
}

fn sized(max_size: usize) -> CacheConfig {
    CacheConfig { ttl_seconds: 10, max_size, serialize: false, cleanup_interval_seconds: default_cleanup_interval() }
}

#[test]
fn cache_never_holds_more_than_max_size() {
    let mut cache = Cache::new(&sized(1));
    cache.put_at("a".to_string(), entry("A", Headers::new()), 0);
    cache.put_at("b".to_string(), entry("B", Headers::new()), 1);
    assert_eq!(cache.len(), 1);
    assert!(cache.get_at("a", 2).is_none());
    assert_eq!(cache.get_at("b", 2).unwrap().response, b"B".to_vec());
}

#[test]
fn full_cache_gives_up_the_entry_that_expires_first() {
    let mut cache = Cache::new(&sized(2));
    cache.put_at("a".to_string(), entry("A", Headers::new()), 5);
    cache.put_at("b".to_string(), entry("B", Headers::new()), 0);
    cache.put_at("a".to_string(), entry("A2", Headers::new()), 6);
    assert_eq!(cache.len(), 2);
    cache.put_at("c".to_string(), entry("C", Headers::new()), 7);
    assert_eq!(cache.len(), 2);
    assert!(cache.get_at("b", 8).is_none());
    assert_eq!(cache.get_at("a", 8).unwrap().response, b"A2".to_vec());
    assert_eq!(cache.get_at("c", 8).unwrap().response, b"C".to_vec());
}

#[test]
fn cache_of_size_zero_stores_nothing() {
    let mut cache = Cache::new(&sized(0));
    cache.put_at("a".to_string(), entry("A", Headers::new()), 0);
    assert_eq!(cache.len(), 0);
    assert!(cache.get_at("a", 1).is_none());
}
