use claw_router::cache::{
    cache_key, entry_path, get, now_unix, put, unix_seconds, CacheConfig, CacheEntry,
    CacheLookup,
};
use claw_router::message::{ChatMessage, ExtraParam, ExtraValue, MessageContent};

fn hello() -> ChatMessage {
    ChatMessage {
        role: Some("user".to_string()),
        content: MessageContent::Text("Hello".to_string()),
        encoded: "{\"content\":\"Hello\",\"role\":\"user\"}".to_string(),
    }
}

fn param(key: &str, encoded: &str) -> ExtraParam {
    ExtraParam { key: key.to_string(), value: ExtraValue::Other, encoded: encoded.to_string() }
}

fn enabled(ttl_seconds: u64) -> CacheConfig {
    CacheConfig { enabled: true, ttl_seconds, cache_dir: "cache".to_string() }
}

fn entry(cached_at: u64, body: &[u8]) -> CacheEntry {
    CacheEntry { cached_at, model: "m".to_string(), response_body: body.to_vec() }
}

#[test]
fn cache_key_is_the_digest_of_model_messages_and_recognized_extras() {
    assert_eq!(
        cache_key("test-model", &[hello()], &Vec::new()),
        "2a9976763526b7b8a71ba31e9062a4140bb9e6e58816ba3fdcf69a29d0209cca"
    );
    let extras = vec![param("temperature", "0.5"), param("max_tokens", "100")];
    assert_eq!(
        cache_key("test-model", &[hello()], &extras),
        "ffae57c1fc0bfc4c517bbff8972068c21633345aaa32ceb41a1b869eac5fd60a"
    );
    assert_eq!(
        cache_key("test-model", &[hello(), hello()], &Vec::new()),
        "6799b5936d49fe01296fb87c4771b5de45993b1d215ec715cae39ee5cd1cb065"
    );
    assert_eq!(
        cache_key("test-model", &[], &Vec::new()),
        "6b64bd7bcb8f706b72e28474493dff6ac9deffa629279e199bdee44fea8fb8d4"
    );
}

#[test]
fn cache_key_ignores_the_order_of_extras() {
    let a = vec![
        param("temperature", "0.5"),
        param("user", "\"u\""),
        param("max_tokens", "100"),
        param("seed", "7"),
    ];
    let b = vec![
        param("seed", "7"),
        param("max_tokens", "100"),
        param("temperature", "0.5"),
        param("user", "\"u\""),
    ];
    assert_eq!(cache_key("m", &[hello()], &a), cache_key("m", &[hello()], &b));
}

#[test]
fn cache_key_ignores_other_extras() {
    let plain = vec![param("temperature", "0.5")];
    let more = vec![
        param("stream", "true"),
        param("temperature", "0.5"),
        param("conversation_id", "\"c\""),
    ];
    assert_eq!(cache_key("m", &[hello()], &plain), cache_key("m", &[hello()], &more));
}

#[test]
fn cache_key_depends_on_each_recognized_extra() {
    let base = cache_key("m", &[hello()], &Vec::new());
    let mut seen = vec![base];
    for key in [
        "temperature",
        "top_p",
        "max_tokens",
        "max_completion_tokens",
        "tools",
        "tool_choice",
        "stop",
        "response_format",
        "seed",
    ] {
        let k = cache_key("m", &[hello()], &vec![param(key, "1")]);
        assert!(!seen.contains(&k), "{} does not enter the key", key);
        seen.push(k);
    }
    assert_ne!(cache_key("m", &[hello()], &Vec::new()), cache_key("n", &[hello()], &Vec::new()));
    assert_ne!(
        cache_key("m", &[hello()], &vec![param("seed", "1")]),
        cache_key("m", &[hello()], &vec![param("seed", "2")])
    );
}

#[test]
fn the_first_parameter_with_a_key_counts() {
    let twice = vec![param("seed", "1"), param("seed", "2")];
    assert_eq!(
        cache_key("m", &[hello()], &twice),
        cache_key("m", &[hello()], &vec![param("seed", "1")])
    );
}

#[test]
fn entry_path_uses_the_first_two_characters() {
    assert_eq!(entry_path("cache", "abcdef"), "cache/ab/abcdef.json");
    assert_eq!(entry_path("/var/c", "ab"), "/var/c/ab/ab.json");
    assert_eq!(entry_path("cache", "a"), "cache/a/a.json");
    assert_eq!(entry_path("cache", ""), "cache//.json");
    assert_eq!(entry_path("", "äöü"), "/äö/äöü.json");
}

#[test]
fn get_returns_fresh_entries_only() {
    let config = enabled(60);
    assert_eq!(
        matches!(get(&config, Some(entry(1000, b"body")), 1060), CacheLookup::Hit(b) if b == b"body"),
        true
    );
    assert!(matches!(get(&config, Some(entry(1000, b"body")), 1061), CacheLookup::Expired));
    assert!(matches!(get(&config, Some(entry(1000, b"body")), 1000), CacheLookup::Hit(_)));
    // An entry from the future is fresh.
    assert!(matches!(get(&config, Some(entry(2000, b"body")), 1000), CacheLookup::Hit(_)));
    assert!(matches!(get(&config, None, 1000), CacheLookup::Miss));
    assert!(matches!(get(&enabled(0), Some(entry(5, b"")), 5), CacheLookup::Hit(_)));
    assert!(matches!(get(&enabled(0), Some(entry(5, b"")), 6), CacheLookup::Expired));
    assert!(matches!(
        get(&enabled(u64::MAX), Some(entry(0, b"")), u64::MAX),
        CacheLookup::Hit(_)
    ));
}

#[test]
fn a_disabled_cache_finds_and_stores_nothing() {
    let config = CacheConfig::default();
    assert!(!config.enabled);
    assert_eq!(config.ttl_seconds, 3600);
    assert_eq!(config.cache_dir, "cache");
    assert!(matches!(get(&config, Some(entry(1000, b"body")), 1000), CacheLookup::Miss));
    assert!(put(&config, "m", b"body", 1000).is_none());
}

#[test]
fn put_makes_the_entry() {
    let stored = put(&enabled(60), "model-x", b"response", 1234).unwrap();
    assert_eq!(stored.cached_at, 1234);
    assert_eq!(stored.model, "model-x");
    assert_eq!(stored.response_body, b"response");
    // What was put is found again while it is fresh.
    assert!(matches!(get(&enabled(60), Some(stored), 1294), CacheLookup::Hit(b) if b == b"response"));
}

#[test]
fn the_clock_is_past_the_year_2020() {
    let now = now_unix();
    assert!(now > 1_577_836_800);
    assert!(now <= i64::MAX as u64);
}

#[test]
fn a_reading_before_the_epoch_counts_as_zero() {
    assert_eq!(unix_seconds(0), 0);
    assert_eq!(unix_seconds(1), 1);
    assert_eq!(unix_seconds(1_700_000_000), 1_700_000_000);
    assert_eq!(unix_seconds(i64::MAX), i64::MAX as u64);
    assert_eq!(unix_seconds(-1), 0);
    assert_eq!(unix_seconds(i64::MIN), 0);
}
