use claw_router::config::Config;
use claw_router::state::{AppState, RequestLog, MAX_LOGS};

fn fresh() -> AppState {
    AppState::new("config.json".to_string(), None)
}

fn log_named(model: &str) -> RequestLog {
    RequestLog::pending(model, format!("id-{}", model), 0)
}

#[test]
fn a_new_log_entry_is_pending() {
    let log = RequestLog::new("gpt-4");
    assert_eq!(log.model, "gpt-4");
    assert_eq!(log.status, "pending");
    assert_eq!(log.duration_ms, 0);
    assert!(log.effective_model.is_none());
    assert!(log.provider.is_none());
    assert!(log.status_code.is_none());
    assert!(log.input_tokens.is_none());
    assert!(log.output_tokens.is_none());
    assert!(log.estimated_cost.is_none());
    assert!(log.complexity_tier.is_none());
    assert!(log.complexity_score.is_none());
    assert!(log.error_message.is_none());
    assert!(log.providers_tried.is_empty());
    assert!(log.cache_status.is_none());
    assert!(log.agentic_mode.is_none());
    assert!(log.session_id.is_none());
    assert!(log.session_pinned.is_none());
    // The id is a hyphenated random identifier, the time is the clock's.
    assert_eq!(log.id.len(), 36);
    assert_ne!(log.id, RequestLog::new("gpt-4").id);
    assert!(log.timestamp > 1_577_836_800);
}

#[test]
fn pending_takes_the_identity_it_is_given() {
    let log = RequestLog::pending("m", "abc".to_string(), 42);
    assert_eq!(log.id, "abc");
    assert_eq!(log.timestamp, 42);
    assert_eq!(log.model, "m");
    assert_eq!(log.status, "pending");
}

#[test]
fn a_store_starts_with_the_loaded_or_the_default_configuration() {
    let state = fresh();
    assert_eq!(state.config_path(), "config.json");
    assert_eq!(state.get_config().active_profile, "auto");
    assert_eq!(state.get_config().providers.len(), 3);
    assert!(state.get_config().validate());
    let ours: Vec<&str> =
        state.get_config().providers.iter().map(|p| p.models[0].id.as_str()).collect();
    let default = Config::default();
    let theirs: Vec<&str> = default.providers.iter().map(|p| p.models[0].id.as_str()).collect();
    assert_eq!(ours, theirs);
    assert!(state.get_logs().is_empty());
    assert_eq!(state.session_count(), 0);

    let mut loaded = Config::default();
    loaded.active_profile = "eco".to_string();
    let state = AppState::new("p".to_string(), Some(loaded));
    assert_eq!(state.get_config().active_profile, "eco");
}

#[test]
fn update_config_replaces_the_configuration() {
    let mut state = fresh();
    state.add_log(log_named("a"));
    state.set_session_at("s".to_string(), "p".to_string(), "m".to_string(), 1);
    let mut next = Config::default();
    next.agentic_mode = true;
    next.profiles.clear();
    state.update_config(next);
    assert!(state.get_config().agentic_mode);
    assert!(state.get_config().profiles.is_empty());
    assert_eq!(state.get_logs().len(), 1);
    assert_eq!(state.session_count(), 1);
}

#[test]
fn the_log_keeps_the_newest_thousand_entries() {
    let mut state = fresh();
    for i in 0..MAX_LOGS {
        state.add_log(log_named(&i.to_string()));
    }
    assert_eq!(state.get_logs().len(), 1000);
    assert_eq!(state.get_logs()[0].model, "0");
    state.add_log(log_named("1000"));
    assert_eq!(state.get_logs().len(), 1000);
    assert_eq!(state.get_logs()[0].model, "1");
    assert_eq!(state.get_logs()[999].model, "1000");
    state.add_log(log_named("1001"));
    assert_eq!(state.get_logs().len(), 1000);
    assert_eq!(state.get_logs()[0].model, "2");
    assert_eq!(state.get_logs()[998].model, "1000");
    assert_eq!(state.get_logs()[999].model, "1001");
}

#[test]
fn logs_are_kept_in_the_order_of_arrival() {
    let mut state = fresh();
    state.add_log(log_named("a"));
    state.add_log(log_named("b"));
    state.add_log(log_named("c"));
    let models: Vec<&str> = state.get_logs().iter().map(|l| l.model.as_str()).collect();
    assert_eq!(models, vec!["a", "b", "c"]);
}

#[test]
fn a_pin_is_visible_only_within_its_time_to_live() {
    let mut state = fresh();
    state.set_session_at("s".to_string(), "prov".to_string(), "model".to_string(), 1000);
    let entry = state.get_session_at("s", 60, 1060).unwrap();
    assert_eq!(entry.provider_id, "prov");
    assert_eq!(entry.model_id, "model");
    assert_eq!(entry.last_active, 1000);
    assert!(state.get_session_at("s", 60, 1000).is_some());
    assert!(state.get_session_at("s", 60, 1061).is_none());
    assert!(state.get_session_at("s", 0, 1000).is_some());
    assert!(state.get_session_at("s", 0, 1001).is_none());
    assert!(state.get_session_at("other", 60, 1000).is_none());
    // A pin from the future is visible.
    assert!(state.get_session_at("s", 0, 999).is_some());
    // The entry is still counted after it has become invisible.
    assert_eq!(state.session_count(), 1);
    assert!(state.get_session_at("s", u64::MAX, i64::MAX).is_some());
}

#[test]
fn set_session_overwrites() {
    let mut state = fresh();
    state.set_session_at("s".to_string(), "p1".to_string(), "m1".to_string(), 10);
    state.set_session_at("t".to_string(), "p2".to_string(), "m2".to_string(), 20);
    state.set_session_at("s".to_string(), "p3".to_string(), "m3".to_string(), 30);
    assert_eq!(state.session_count(), 2);
    let s = state.get_session_at("s", 100, 30).unwrap();
    assert_eq!((s.provider_id.as_str(), s.model_id.as_str(), s.last_active), ("p3", "m3", 30));
    let t = state.get_session_at("t", 100, 30).unwrap();
    assert_eq!((t.provider_id.as_str(), t.model_id.as_str(), t.last_active), ("p2", "m2", 20));
}

#[test]
fn touch_moves_the_last_use() {
    let mut state = fresh();
    state.set_session_at("s".to_string(), "p".to_string(), "m".to_string(), 10);
    assert!(state.get_session_at("s", 5, 100).is_none());
    state.touch_session_at("s", 98);
    let s = state.get_session_at("s", 5, 100).unwrap();
    assert_eq!((s.provider_id.as_str(), s.model_id.as_str(), s.last_active), ("p", "m", 98));
    state.touch_session_at("unknown", 98);
    assert_eq!(state.session_count(), 1);
    assert!(state.get_session_at("unknown", 5, 98).is_none());
}

#[test]
fn cleanup_drops_what_is_no_longer_live() {
    let mut state = fresh();
    state.set_session_at("old".to_string(), "p".to_string(), "m".to_string(), 10);
    state.set_session_at("edge".to_string(), "p".to_string(), "m".to_string(), 40);
    state.set_session_at("new".to_string(), "p".to_string(), "m".to_string(), 90);
    state.set_session_at("older".to_string(), "p".to_string(), "m".to_string(), 0);
    state.cleanup_sessions_at(60, 100);
    assert_eq!(state.session_count(), 2);
    assert!(state.get_session_at("old", 1000, 100).is_none());
    assert!(state.get_session_at("older", 1000, 100).is_none());
    assert_eq!(state.get_session_at("edge", 1000, 100).unwrap().last_active, 40);
    assert_eq!(state.get_session_at("new", 1000, 100).unwrap().last_active, 90);
    state.cleanup_sessions_at(0, 1000);
    assert_eq!(state.session_count(), 0);
}

#[test]
fn the_clocked_operations_use_the_current_time() {
    let mut state = fresh();
    state.set_session("s".to_string(), "p".to_string(), "m".to_string());
    let entry = state.get_session("s", 3600).unwrap();
    assert!(entry.last_active > 1_577_836_800);
    state.set_session_at("stale".to_string(), "p".to_string(), "m".to_string(), 0);
    assert!(state.get_session("stale", 3600).is_none());
    state.touch_session("stale");
    assert!(state.get_session("stale", 3600).is_some());
    state.set_session_at("gone".to_string(), "p".to_string(), "m".to_string(), 0);
    state.cleanup_sessions(3600);
    assert_eq!(state.session_count(), 2);
    assert!(state.get_session_at("gone", u64::MAX, 0).is_none());
}
