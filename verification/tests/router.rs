use claw_router::config::{
    Config, Model, ModelMapping, Provider, ProviderType, RoutingProfile, Tier,
};
use claw_router::router::{default_provider_tiers_for_complexity, find_model, Router};
use claw_router::scorer::ComplexityTier;

fn make_provider(id: &str, name: &str, tier: Tier, cost: u64, priority: u8) -> Provider {
    Provider {
        id: id.to_string(),
        name: name.to_string(),
        provider_type: ProviderType::OpenAI,
        api_key: None,
        endpoint: None,
        tier,
        enabled: true,
        priority,
        models: vec![Model {
            id: "gpt-4".to_string(),
            name: "gpt-4".to_string(),
            input_cost_per_1m: cost,
            output_cost_per_1m: cost * 2,
            context_window: 8192,
            supports_vision: false,
            supports_function_calling: true,
        }],
    }
}

fn make_config(providers: Vec<Provider>, profiles: Vec<RoutingProfile>, active: &str) -> Config {
    Config {
        providers,
        profiles,
        active_profile: active.to_string(),
        scorer: None,
        cache: None,
        agentic_mode: false,
        session: None,
    }
}

fn make_profile(name: &str, desc: &str, tiers: Vec<Tier>) -> RoutingProfile {
    RoutingProfile {
        name: name.to_string(),
        description: desc.to_string(),
        allowed_tiers: tiers,
        model_mapping: Vec::new(),
        agentic_model_mapping: Vec::new(),
    }
}

fn mapping(model_id: &str, provider_id: &str) -> ModelMapping {
    ModelMapping { model_id: model_id.to_string(), provider_id: provider_id.to_string() }
}

fn ids(candidates: &[Provider]) -> Vec<String> {
    candidates.iter().map(|p| p.id.clone()).collect()
}

fn three_tier_config() -> Config {
    let providers = vec![
        make_provider("sub", "Subscription", Tier::Subscription, 30_000_000, 1),
        make_provider("cheap", "Cheap", Tier::Cheap, 5_000_000, 1),
        make_provider("free", "Free", Tier::Free, 0, 1),
    ];
    let profiles = vec![make_profile(
        "auto",
        "auto",
        vec![Tier::Subscription, Tier::Cheap, Tier::Free],
    )];
    make_config(providers, profiles, "auto")
}

#[test]
fn test_routing_logic_no_complexity() {
    let providers = vec![
        make_provider("p1", "Expensive", Tier::Subscription, 30_000_000, 1),
        make_provider("p2", "Cheap", Tier::Cheap, 5_000_000, 1),
    ];
    let profiles = vec![
        make_profile("auto", "auto", vec![Tier::Subscription, Tier::Cheap]),
        make_profile("eco", "eco", vec![Tier::Cheap]),
    ];
    let config = make_config(providers, profiles, "auto");

    let candidates = Router::route_request(&config, "gpt-4", None, false);
    assert_eq!(candidates.len(), 2);
    assert_eq!(candidates[0].id, "p1");
    assert_eq!(candidates[1].id, "p2");

    let mut config_eco = config.clone();
    config_eco.active_profile = "eco".to_string();
    let candidates_eco = Router::route_request(&config_eco, "gpt-4", None, false);
    assert_eq!(candidates_eco.len(), 1);
    assert_eq!(candidates_eco[0].id, "p2");
}

#[test]
fn test_simple_complexity_routes_to_cheap() {
    let config = three_tier_config();
    let candidates = Router::route_request(&config, "gpt-4", Some(ComplexityTier::Simple), false);
    assert_eq!(candidates.len(), 2);
    assert_eq!(candidates[0].id, "cheap");
    assert_eq!(candidates[1].id, "free");
}

#[test]
fn test_reasoning_complexity_routes_to_subscription() {
    let config = three_tier_config();
    let candidates =
        Router::route_request(&config, "gpt-4", Some(ComplexityTier::Reasoning), false);
    assert_eq!(candidates.len(), 1);
    assert_eq!(candidates[0].id, "sub");
}

#[test]
fn test_complexity_with_eco_profile_fallback() {
    let providers = vec![
        make_provider("sub", "Subscription", Tier::Subscription, 30_000_000, 1),
        make_provider("cheap", "Cheap", Tier::Cheap, 5_000_000, 1),
    ];
    let profiles = vec![make_profile("eco", "eco", vec![Tier::Cheap])];
    let config = make_config(providers, profiles, "eco");

    let candidates =
        Router::route_request(&config, "gpt-4", Some(ComplexityTier::Reasoning), false);
    assert_eq!(candidates.len(), 1);
    assert_eq!(candidates[0].id, "cheap");
}

#[test]
fn test_complex_complexity() {
    let config = three_tier_config();
    let candidates =
        Router::route_request(&config, "gpt-4", Some(ComplexityTier::Complex), false);
    assert_eq!(candidates.len(), 2);
    assert_eq!(candidates[0].id, "sub");
    assert_eq!(candidates[1].id, "cheap");
}

#[test]
fn parse_router_model_reads_the_profile() {
    assert_eq!(Router::parse_router_model("router/eco"), Some("eco"));
    assert_eq!(Router::parse_router_model("router/"), Some(""));
    assert_eq!(Router::parse_router_model("router"), None);
    assert_eq!(Router::parse_router_model("gpt-4"), None);
    assert_eq!(Router::parse_router_model("xrouter/eco"), None);
    assert_eq!(Router::parse_router_model(""), None);
    assert_eq!(Router::parse_router_model("router/a/b"), Some("a/b"));
}

#[test]
fn eligible_tiers_by_complexity() {
    assert_eq!(
        default_provider_tiers_for_complexity(ComplexityTier::Simple),
        vec![Tier::Free, Tier::Cheap]
    );
    assert_eq!(
        default_provider_tiers_for_complexity(ComplexityTier::Medium),
        vec![Tier::Cheap, Tier::Free, Tier::PayPerRequest]
    );
    assert_eq!(
        default_provider_tiers_for_complexity(ComplexityTier::Complex),
        vec![Tier::Subscription, Tier::Cheap, Tier::PayPerRequest]
    );
    assert_eq!(
        default_provider_tiers_for_complexity(ComplexityTier::Reasoning),
        vec![Tier::Subscription, Tier::PayPerRequest]
    );
}

#[test]
fn disabled_and_unserving_providers_never_appear() {
    let mut off = make_provider("off", "Off", Tier::Cheap, 1, 9);
    off.enabled = false;
    let mut other = make_provider("other", "Other", Tier::Cheap, 1, 9);
    other.models[0].id = "other-model".to_string();
    let on = make_provider("on", "On", Tier::Cheap, 7, 1);
    let config = make_config(
        vec![off, other, on],
        vec![make_profile("auto", "auto", vec![Tier::Cheap])],
        "auto",
    );
    let candidates = Router::route_request(&config, "gpt-4", None, false);
    assert_eq!(ids(&candidates), vec!["on"]);
    assert!(candidates.iter().all(|p| p.enabled && find_model(p, "gpt-4").is_some()));
}

#[test]
fn candidates_are_ordered_by_tier_then_cost_then_priority() {
    let providers = vec![
        make_provider("cheap-dear", "a", Tier::Cheap, 9, 1),
        make_provider("free-low", "b", Tier::Free, 3, 1),
        make_provider("cheap-low-prio", "c", Tier::Cheap, 2, 1),
        make_provider("free-high", "d", Tier::Free, 3, 200),
        make_provider("cheap-high-prio", "e", Tier::Cheap, 2, 5),
        make_provider("free-twin", "f", Tier::Free, 3, 1),
    ];
    let config = make_config(
        providers,
        vec![make_profile("auto", "auto", vec![Tier::Free, Tier::Cheap])],
        "auto",
    );
    let candidates = Router::route_request(&config, "gpt-4", None, false);
    assert_eq!(
        ids(&candidates),
        vec!["free-high", "free-low", "free-twin", "cheap-high-prio", "cheap-low-prio", "cheap-dear"]
    );
}

#[test]
fn unknown_profile_falls_back_to_the_first_one() {
    let providers = vec![
        make_provider("p1", "Expensive", Tier::Subscription, 30_000_000, 1),
        make_provider("p2", "Cheap", Tier::Cheap, 5_000_000, 1),
    ];
    let profiles = vec![
        make_profile("first", "first", vec![Tier::Cheap]),
        make_profile("second", "second", vec![Tier::Subscription]),
    ];
    let config = make_config(providers, profiles, "missing");
    assert_eq!(ids(&Router::route_request(&config, "gpt-4", None, false)), vec!["p2"]);
    let overridden =
        Router::route_request_with_profile(&config, "gpt-4", None, Some("second"), false);
    assert_eq!(ids(&overridden), vec!["p1"]);
}

#[test]
fn no_profile_means_no_candidate() {
    let config = make_config(
        vec![make_provider("p1", "P", Tier::Cheap, 1, 1)],
        Vec::new(),
        "auto",
    );
    assert!(Router::route_request(&config, "gpt-4", None, false).is_empty());
    assert_eq!(
        Router::resolve_model_id(&config, "gpt-4", Some(ComplexityTier::Simple), false),
        "gpt-4"
    );
}

#[test]
fn mapping_redirects_the_model_and_pins_the_provider() {
    let mut a = make_provider("a", "A", Tier::Cheap, 1, 1);
    a.models[0].id = "mapped".to_string();
    let mut b = make_provider("b", "B", Tier::Subscription, 2, 1);
    b.models[0].id = "mapped".to_string();
    let c = make_provider("c", "C", Tier::Cheap, 3, 1);
    let mut profile = make_profile("auto", "auto", vec![Tier::Cheap, Tier::Free]);
    profile.model_mapping.push(("simple".to_string(), mapping("mapped", "")));
    profile.model_mapping.push(("medium".to_string(), mapping("mapped", "b")));
    profile.model_mapping.push(("complex".to_string(), mapping("", "")));
    profile.model_mapping.push(("reasoning".to_string(), mapping("absent", "")));
    profile.agentic_model_mapping.push(("simple".to_string(), mapping("gpt-4", "")));
    let config = make_config(vec![a, b, c], vec![profile], "auto");

    let simple = Some(ComplexityTier::Simple);
    assert_eq!(Router::resolve_model_id(&config, "gpt-4", simple, false), "mapped");
    assert_eq!(ids(&Router::route_request(&config, "gpt-4", simple, false)), vec!["a"]);

    // A pinned provider is taken whatever its tier.
    let medium = Some(ComplexityTier::Medium);
    assert_eq!(ids(&Router::route_request(&config, "gpt-4", medium, false)), vec!["b"]);

    // An empty mapped id leaves the requested model.
    let complex = Some(ComplexityTier::Complex);
    assert_eq!(Router::resolve_model_id(&config, "gpt-4", complex, false), "gpt-4");
    assert_eq!(ids(&Router::route_request(&config, "gpt-4", complex, false)), vec!["c"]);

    // A mapped model that nobody serves falls back to the requested one,
    // while the effective model stays the mapped one.
    let reasoning = Some(ComplexityTier::Reasoning);
    assert_eq!(Router::resolve_model_id(&config, "gpt-4", reasoning, false), "absent");
    assert_eq!(ids(&Router::route_request(&config, "gpt-4", reasoning, false)), vec!["c"]);

    // The agentic table counts for agentic requests when it is not empty.
    assert_eq!(Router::resolve_model_id(&config, "other", simple, true), "gpt-4");
    assert_eq!(ids(&Router::route_request(&config, "other", simple, true)), vec!["c"]);
    // Without a complexity tier no mapping applies.
    assert_eq!(Router::resolve_model_id(&config, "other", None, true), "other");
}

#[test]
fn profile_override_selects_the_mapping() {
    let mut eco = make_profile("eco", "eco", vec![Tier::Cheap]);
    eco.model_mapping.push(("simple".to_string(), mapping("small", "")));
    let config = make_config(
        Vec::new(),
        vec![make_profile("auto", "auto", vec![Tier::Cheap]), eco],
        "auto",
    );
    let simple = Some(ComplexityTier::Simple);
    assert_eq!(
        Router::resolve_model_id_with_profile(&config, "m", simple, Some("eco"), false),
        "small"
    );
    assert_eq!(Router::resolve_model_id_with_profile(&config, "m", simple, None, false), "m");
}

#[test]
fn after_a_fallback_the_order_follows_the_requested_model() {
    let mut a = make_provider("a", "A", Tier::Cheap, 5_000_000, 1);
    a.models[0].id = "m1".to_string();
    let mut b = make_provider("b", "B", Tier::Cheap, 1_000_000, 1);
    b.models[0].id = "m1".to_string();
    let mut profile = make_profile("auto", "auto", vec![Tier::Cheap]);
    profile.model_mapping.push(("complex".to_string(), mapping("m2", "")));
    let config = make_config(vec![a, b], vec![profile], "auto");
    let complex = Some(ComplexityTier::Complex);
    assert_eq!(Router::resolve_model_id(&config, "m1", complex, false), "m2");
    assert_eq!(ids(&Router::route_request(&config, "m1", complex, false)), vec!["b", "a"]);
}

#[test]
fn the_default_configuration_routes_by_fallback() {
    let config = Config::default();
    let complex = Some(ComplexityTier::Complex);
    // The profile maps the tier to a model that no built-in provider offers.
    assert_eq!(
        Router::resolve_model_id(&config, "gpt-4-turbo", complex, false),
        "google/gemini-3-pro-preview"
    );
    assert_eq!(ids(&Router::route_request(&config, "gpt-4-turbo", complex, false)), vec!["openai"]);
    assert_eq!(
        ids(&Router::route_request(&config, "deepseek-chat", complex, false)),
        vec!["deepseek"]
    );
    assert!(Router::route_request(&config, "deepseek-chat", Some(ComplexityTier::Reasoning), false)
        .is_empty());
    assert!(Router::route_request(&config, "unknown", None, false).is_empty());
}
