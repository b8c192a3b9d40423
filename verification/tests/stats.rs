use claw_router::config::Config;
use claw_router::state::RequestLog;
use claw_router::stats::{
    cost_sum, duration_sum, get_stats, group_names, tally, Criteria, GroupKind, GroupPick,
};

fn log(model: &str, status: &str, provider: Option<&str>, cost: Option<u64>, ms: u64) -> RequestLog {
    let mut l = RequestLog::pending(model, model.to_string(), 0);
    l.status = status.to_string();
    l.provider = provider.map(|p| p.to_string());
    l.estimated_cost = cost;
    l.duration_ms = ms;
    l
}

fn sample() -> Vec<RequestLog> {
    let mut logs = vec![
        log("gpt-4", "success", Some("OpenAI"), Some(1_234_567), 100),
        log("gpt-4", "error", None, None, 51),
        log("small", "success", Some("cache"), None, 1),
        log("gpt-4", "no_provider", None, None, 2),
        log("small", "success", Some("OpenAI"), Some(50), 10),
        log("small", "error", Some("OpenAI"), Some(3), 1),
    ];
    logs[0].complexity_tier = Some("Simple".to_string());
    logs[2].complexity_tier = Some("Reasoning".to_string());
    logs[4].complexity_tier = Some("Simple".to_string());
    logs[0].agentic_mode = Some(true);
    logs[1].agentic_mode = Some(false);
    logs[4].agentic_mode = Some(true);
    logs[2].session_pinned = Some(true);
    logs
}

fn every() -> Criteria<'static> {
    Criteria { status: None, group: None, agentic: false, pinned: false }
}

#[test]
fn the_overall_figures() {
    let logs = sample();
    let stats = get_stats(&logs, &Config::default(), 4);
    assert_eq!(stats.requests, 6);
    assert_eq!(stats.successful, 3);
    assert_eq!(stats.failed, 2);
    // 1.234620 rounds to 1.2346.
    assert_eq!(stats.total_cost, 12_346);
    // 165 ms over 6 requests is 27.5 ms.
    assert_eq!(stats.avg_duration_ms, 2750);
    assert_eq!(stats.active_profile, "auto");
    assert_eq!(stats.agentic_count, 2);
    assert_eq!(stats.session_pinned_count, 1);
    assert_eq!(stats.active_sessions, 4);
}

#[test]
fn the_breakdown_by_provider() {
    let logs = sample();
    let stats = get_stats(&logs, &Config::default(), 0);
    let rows: Vec<(&str, usize, usize, usize, u128, u128)> = stats
        .providers
        .iter()
        .map(|p| {
            (p.name.as_str(), p.requests, p.successful, p.failed, p.total_cost, p.avg_duration_ms)
        })
        .collect();
    assert_eq!(
        rows,
        vec![
            ("OpenAI", 3, 2, 1, 1_234_620, 3700),
            ("unknown", 2, 0, 2, 0, 2650),
            ("cache", 1, 1, 0, 0, 100),
        ]
    );
}

#[test]
fn the_breakdown_by_model_and_tier() {
    let logs = sample();
    let stats = get_stats(&logs, &Config::default(), 0);
    let models: Vec<(&str, usize, u128)> =
        stats.models.iter().map(|m| (m.model.as_str(), m.requests, m.total_cost)).collect();
    assert_eq!(models, vec![("gpt-4", 3, 1_234_567), ("small", 3, 53)]);
    let tiers: Vec<(&str, usize)> =
        stats.complexity_tiers.iter().map(|t| (t.tier.as_str(), t.count)).collect();
    assert_eq!(tiers, vec![("Simple", 2), ("Reasoning", 1)]);
}

#[test]
fn the_recent_requests_are_the_last_ten() {
    let logs: Vec<RequestLog> =
        (0..25).map(|i| log(&i.to_string(), "success", None, None, 0)).collect();
    let stats = get_stats(&logs, &Config::default(), 0);
    let recent: Vec<&str> = stats.recent_requests.iter().map(|l| l.model.as_str()).collect();
    assert_eq!(recent, vec!["24", "23", "22", "21", "20", "19", "18", "17", "16", "15"]);
    let few = sample();
    let stats = get_stats(&few, &Config::default(), 0);
    let recent: Vec<u64> = stats.recent_requests.iter().map(|l| l.duration_ms).collect();
    assert_eq!(recent, vec![1, 10, 2, 1, 51, 100]);
}

#[test]
fn an_empty_log_has_empty_statistics() {
    let logs: Vec<RequestLog> = Vec::new();
    let stats = get_stats(&logs, &Config::default(), 0);
    assert_eq!((stats.requests, stats.successful, stats.failed), (0, 0, 0));
    assert_eq!((stats.total_cost, stats.avg_duration_ms), (0, 0));
    assert!(stats.providers.is_empty());
    assert!(stats.models.is_empty());
    assert!(stats.complexity_tiers.is_empty());
    assert!(stats.recent_requests.is_empty());
}

#[test]
fn rounding_is_to_the_nearest_with_halves_up() {
    let cost = |c: u64| get_stats(&vec![log("m", "success", None, Some(c), 0)], &Config::default(), 0).total_cost;
    assert_eq!(cost(0), 0);
    assert_eq!(cost(49), 0);
    assert_eq!(cost(50), 1);
    assert_eq!(cost(149), 1);
    assert_eq!(cost(150), 2);
    assert_eq!(cost(u64::MAX), 184_467_440_737_095_516);
    // The mean of `count` durations that sum to `total`, in hundredths.
    let mean = |total: u64, count: usize| {
        let mut logs: Vec<RequestLog> =
            (0..count).map(|_| log("m", "success", None, None, 0)).collect();
        if let Some(first) = logs.first_mut() {
            first.duration_ms = total;
        }
        get_stats(&logs, &Config::default(), 0).avg_duration_ms
    };
    assert_eq!(mean(0, 0), 0);
    assert_eq!(mean(0, 3), 0);
    assert_eq!(mean(10, 3), 333);
    assert_eq!(mean(11, 3), 367);
    assert_eq!(mean(1, 200), 1);
    assert_eq!(mean(1, 201), 0);
    assert_eq!(mean(1, 8), 13);
    assert_eq!(mean(7, 1), 700);
    assert_eq!(mean(u64::MAX, 1), u64::MAX as u128 * 100);
}

#[test]
fn sums_do_not_overflow() {
    let logs: Vec<RequestLog> =
        (0..4).map(|_| log("m", "success", None, Some(u64::MAX), u64::MAX)).collect();
    assert_eq!(cost_sum(&logs, &every()), u64::MAX as u128 * 4);
    assert_eq!(duration_sum(&logs, &every()), u64::MAX as u128 * 4);
    let stats = get_stats(&logs, &Config::default(), 0);
    assert_eq!(stats.avg_duration_ms, u64::MAX as u128 * 100);
    assert_eq!(stats.total_cost, (u64::MAX as u128 * 4 + 50) / 100);
}

#[test]
fn criteria_are_conjunctions() {
    let logs = sample();
    assert_eq!(tally(&logs, &every()), 6);
    let in_openai = || Some(GroupPick { kind: GroupKind::Provider, name: "OpenAI" });
    assert_eq!(tally(&logs, &Criteria { group: in_openai(), ..every() }), 3);
    assert_eq!(
        tally(&logs, &Criteria { status: Some("success"), group: in_openai(), ..every() }),
        2
    );
    assert_eq!(
        tally(
            &logs,
            &Criteria { status: Some("success"), group: in_openai(), agentic: true, pinned: false }
        ),
        2
    );
    assert_eq!(tally(&logs, &Criteria { agentic: true, pinned: true, ..every() }), 0);
    let unknown = Some(GroupPick { kind: GroupKind::Provider, name: "unknown" });
    assert_eq!(tally(&logs, &Criteria { group: unknown, ..every() }), 2);
    let tier = Some(GroupPick { kind: GroupKind::Tier, name: "Simple" });
    assert_eq!(cost_sum(&logs, &Criteria { group: tier, ..every() }), 1_234_617);
    let model = Some(GroupPick { kind: GroupKind::Model, name: "small" });
    assert_eq!(duration_sum(&logs, &Criteria { group: model, ..every() }), 12);
}

#[test]
fn groups_are_listed_once_in_order_of_first_occurrence() {
    let logs = sample();
    assert_eq!(group_names(&logs, GroupKind::Provider), vec!["OpenAI", "unknown", "cache"]);
    assert_eq!(group_names(&logs, GroupKind::Model), vec!["gpt-4", "small"]);
    assert_eq!(group_names(&logs, GroupKind::Tier), vec!["Simple", "Reasoning"]);
    assert!(group_names(&Vec::new(), GroupKind::Tier).is_empty());
}
