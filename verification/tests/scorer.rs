use claw_router::message::{ChatMessage, ContentPart, MessageContent};
use claw_router::scorer::{
    boundary_distance, classify_tier, compute_weighted_score, estimate_token_count, extract_text,
    score_agentic_task, score_keyword_match, score_multi_step, score_question_complexity,
    score_token_count, ComplexityTier, DimensionScores, Scorer, ScorerConfig, ScorerWeights,
    ScoringResult, TierBoundaries, TokenThresholds, AGENTIC_KEYWORDS, CODE_KEYWORDS,
};

fn text_message(role: &str, content: &str) -> ChatMessage {
    ChatMessage {
        role: Some(role.to_string()),
        content: MessageContent::Text(content.to_string()),
        encoded: format!("{{\"content\":{:?},\"role\":{:?}}}", content, role),
    }
}

fn make_user_message(content: &str) -> ChatMessage {
    text_message("user", content)
}

fn score_text(text: &str) -> ScoringResult {
    let messages = vec![make_user_message(text)];
    Scorer::score(&messages, &ScorerConfig::default())
}

/// The confidence that goes with a distance to the nearest boundary: the
/// logistic function of the steepness times the distance.
fn confidence(distance_millionths: u64, steepness_thousandths: i32) -> f64 {
    let d = distance_millionths as f64 / 1_000_000.0;
    let k = steepness_thousandths as f64 / 1000.0;
    1.0 / (1.0 + (-k * d).exp())
}

fn zero_scores() -> DimensionScores {
    DimensionScores {
        token_count: 0,
        code_presence: 0,
        reasoning_markers: 0,
        technical_terms: 0,
        creative_markers: 0,
        simple_indicators: 0,
        multi_step_patterns: 0,
        question_complexity: 0,
        imperative_verbs: 0,
        constraint_count: 0,
        output_format: 0,
        reference_complexity: 0,
        negation_complexity: 0,
        domain_specificity: 0,
        agentic_task: 0,
    }
}

#[test]
fn test_simple_query() {
    let result = score_text("What is Rust?");
    assert_eq!(result.tier, ComplexityTier::Simple);
    assert!(result.raw_score < 0);
    assert_eq!(result.raw_score, -86_000);
    assert_eq!(result.boundary_distance, 86_000);
    assert_eq!(result.signals, vec!["simple:1"]);
    assert_eq!(result.override_applied, None);
}

#[test]
fn test_code_query() {
    let result = score_text(
        "Write a function that implements a class with async/await \
         and uses import statements. Include a struct definition.",
    );
    assert!(result.raw_score > 0);
    assert!(result.tier == ComplexityTier::Medium || result.tier == ComplexityTier::Complex);
    assert_eq!(result.raw_score, 94_000);
    assert_eq!(result.tier, ComplexityTier::Medium);
    assert_eq!(result.signals, vec!["code:6", "creative:1", "imperative:1"]);
}

#[test]
fn test_reasoning_override() {
    let result = score_text(
        "Prove the theorem using mathematical induction. \
         Derive the proof step by step using formal logic.",
    );
    assert_eq!(result.tier, ComplexityTier::Reasoning);
    assert_eq!(result.override_applied, Some("reasoning_markers_force".to_string()));
    assert_eq!(result.raw_score, 100_000);
    assert_eq!(result.signals, vec!["reasoning:7"]);
}

#[test]
fn test_multi_step_detection() {
    let result = score_text(
        "First, set up the database schema, then create the API endpoints, \
         and deploy the microservice to kubernetes.",
    );
    assert!(result.signals.iter().any(|s| s == "multi_step"));
    assert!(result.raw_score > 0);
    assert_eq!(result.raw_score, 133_000);
    assert_eq!(
        result.signals,
        vec![
            "agentic:1",
            "technical:3",
            "multi_step",
            "imperative:3",
            "output_format:1",
            "reference:1"
        ]
    );
    assert_eq!(result.agentic_keyword_count, 1);
}

#[test]
fn test_question_complexity() {
    let result = score_text(
        "What is the algorithm? How does it optimize? \
         Why is it distributed? When should I use it? \
         Where does latency come from?",
    );
    assert!(result.signals.iter().any(|s| s.starts_with("questions:")));
    assert_eq!(result.signals, vec!["technical:4", "simple:1", "questions:5"]);
    assert_eq!(result.raw_score, 39_000);
}

#[test]
fn test_agentic_task() {
    let result = score_text(
        "Read the file, edit the code, fix the bug, \
         deploy it, and make sure it works. After that, verify.",
    );
    assert!(result.signals.iter().any(|s| s.starts_with("agentic:")));
    assert_eq!(result.agentic_keyword_count, 7);
    assert_eq!(result.signals, vec!["agentic:7", "imperative:1", "reference:1"]);
    assert_eq!(result.raw_score, -25_000);
}

#[test]
fn test_structured_output_override() {
    let result = score_text("What is json?");
    assert_eq!(result.tier, ComplexityTier::Medium);
    assert_eq!(result.override_applied, Some("structured_output_min_medium".to_string()));
    assert_eq!(result.raw_score, -77_000);
}

#[test]
fn test_extract_text_string_content() {
    let messages = vec![make_user_message("Hello World")];
    let text = extract_text(&messages);
    assert_eq!(text, "hello world");
}

#[test]
fn test_extract_text_array_content() {
    let messages = vec![ChatMessage {
        role: Some("user".to_string()),
        content: MessageContent::Parts(vec![
            ContentPart { kind: Some("text".to_string()), text: Some("Hello".to_string()) },
            ContentPart { kind: Some("image_url".to_string()), text: None },
        ]),
        encoded: String::new(),
    }];
    let text = extract_text(&messages);
    assert_eq!(text, "hello");
}

#[test]
fn test_extract_text_skips_non_user() {
    let messages = vec![
        text_message("system", "You are helpful."),
        text_message("user", "Hi there"),
        text_message("assistant", "Hello!"),
    ];
    let text = extract_text(&messages);
    assert_eq!(text, "hi there");
}

#[test]
fn test_confidence_high_away_from_boundary() {
    let boundaries = TierBoundaries::default();
    // A score of 0.15 lies 0.15 from the boundaries 0.0 and 0.3.
    let distance = boundary_distance(150_000, &boundaries);
    assert_eq!(distance, 150_000);
    let conf = confidence(distance, 12_000);
    assert!(conf > 0.5);
    assert!(conf < 1.0);
}

#[test]
fn test_confidence_low_at_boundary() {
    let boundaries = TierBoundaries::default();
    let distance = boundary_distance(300_000, &boundaries);
    assert_eq!(distance, 0);
    let conf = confidence(distance, 12_000);
    assert!((conf - 0.5).abs() < 0.01);
}

#[test]
fn test_domain_specific() {
    let result = score_text(
        "Explain quantum computing and homomorphic encryption \
         for lattice-based cryptography.",
    );
    assert!(result.signals.iter().any(|s| s.starts_with("domain:")));
    assert_eq!(result.signals, vec!["technical:1", "domain:3"]);
    assert_eq!(result.raw_score, -30_000);
}

#[test]
fn test_empty_messages() {
    let result = Scorer::score(&[], &ScorerConfig::default());
    assert_eq!(result.tier, ComplexityTier::Simple);
    assert_eq!(result.raw_score, -80_000);
    assert!(result.signals.is_empty());
    assert_eq!(result.agentic_keyword_count, 0);
}

#[test]
fn extract_text_joins_parts_with_line_feeds() {
    let messages = vec![
        make_user_message("One"),
        ChatMessage {
            role: Some("user".to_string()),
            content: MessageContent::Parts(vec![
                ContentPart { kind: Some("text".to_string()), text: Some("TWO".to_string()) },
                ContentPart { kind: None, text: Some("no kind".to_string()) },
                ContentPart { kind: Some("text".to_string()), text: None },
                ContentPart { kind: Some("text".to_string()), text: Some("Three".to_string()) },
            ]),
            encoded: String::new(),
        },
        ChatMessage { role: None, content: MessageContent::Text("x".to_string()), encoded: String::new() },
        ChatMessage { role: Some("user".to_string()), content: MessageContent::Other, encoded: String::new() },
        make_user_message("ÄÖ four"),
    ];
    assert_eq!(extract_text(&messages), "one\ntwo\nthree\näö four");
    assert_eq!(extract_text(&[]), "");
}

#[test]
fn token_estimate_is_a_quarter_of_the_characters() {
    assert_eq!(estimate_token_count(""), 0);
    assert_eq!(estimate_token_count("abc"), 0);
    assert_eq!(estimate_token_count("abcd"), 1);
    assert_eq!(estimate_token_count("ääääääää"), 2);
    let thresholds = TokenThresholds { short_upper: 2, long_lower: 3 };
    assert_eq!(score_token_count("1234567", &thresholds), -1000);
    assert_eq!(score_token_count("12345678", &thresholds), 0);
    assert_eq!(score_token_count("123456789012", &thresholds), 0);
    assert_eq!(score_token_count("1234567890123456", &thresholds), 1000);
}

#[test]
fn keyword_counts_map_to_scores() {
    let mut signals = Vec::new();
    assert_eq!(score_keyword_match("nothing here", &CODE_KEYWORDS, "code", &mut signals), 0);
    assert!(signals.is_empty());
    assert_eq!(score_keyword_match("a class", &CODE_KEYWORDS, "code", &mut signals), 300);
    assert_eq!(score_keyword_match("let a class", &CODE_KEYWORDS, "code", &mut signals), 600);
    assert_eq!(score_keyword_match("let var class", &CODE_KEYWORDS, "code", &mut signals), 1000);
    assert_eq!(
        score_keyword_match("let var class const import", &CODE_KEYWORDS, "x", &mut signals),
        1000
    );
    assert_eq!(signals, vec!["code:1", "code:2", "code:3", "x:5"]);
    // The upper-case keywords never match lower-case text.
    assert_eq!(score_keyword_match("select insert", &CODE_KEYWORDS, "code", &mut signals), 0);
}

#[test]
fn agentic_counts_map_to_tiered_scores() {
    let mut signals = Vec::new();
    assert_eq!(score_agentic_task("hello", &AGENTIC_KEYWORDS, &mut signals), (0, 0));
    assert_eq!(score_agentic_task("npm", &AGENTIC_KEYWORDS, &mut signals), (200, 1));
    assert_eq!(score_agentic_task("npm fix", &AGENTIC_KEYWORDS, &mut signals), (200, 2));
    assert_eq!(score_agentic_task("npm fix debug", &AGENTIC_KEYWORDS, &mut signals), (600, 3));
    assert_eq!(
        score_agentic_task("npm fix debug verify", &AGENTIC_KEYWORDS, &mut signals),
        (1000, 4)
    );
    assert_eq!(signals, vec!["agentic:1", "agentic:2", "agentic:3", "agentic:4"]);
}

#[test]
fn multi_step_patterns_are_detected() {
    let mut signals = Vec::new();
    assert_eq!(score_multi_step("first do this then that", &mut signals), 500);
    assert_eq!(score_multi_step("see step 3", &mut signals), 500);
    assert_eq!(score_multi_step("1. one 2. two", &mut signals), 500);
    assert_eq!(score_multi_step("FIRST a THEN b", &mut signals), 500);
    assert_eq!(signals.len(), 4);
    assert!(signals.iter().all(|s| s == "multi_step"));
    assert_eq!(score_multi_step("firstly thence", &mut signals), 0);
    assert_eq!(score_multi_step("step three", &mut signals), 0);
    assert_eq!(score_multi_step("", &mut signals), 0);
    assert_eq!(signals.len(), 4);
}

#[test]
fn more_than_three_question_marks_count() {
    let mut signals = Vec::new();
    assert_eq!(score_question_complexity("a? b? c?", &mut signals), 0);
    assert!(signals.is_empty());
    assert_eq!(score_question_complexity("????", &mut signals), 500);
    assert_eq!(score_question_complexity("a?b?c?d?e?f?g?h?i?j?k?l?", &mut signals), 500);
    assert_eq!(signals, vec!["questions:4", "questions:12"]);
}

#[test]
fn weighted_sum_subtracts_the_simple_indicators() {
    let weights = ScorerWeights::default();
    assert_eq!(compute_weighted_score(&zero_scores(), &weights), 0);
    let mut scores = zero_scores();
    scores.simple_indicators = 1000;
    assert_eq!(compute_weighted_score(&scores, &weights), -20_000);
    scores.code_presence = 600;
    scores.agentic_task = 200;
    scores.token_count = -1000;
    assert_eq!(compute_weighted_score(&scores, &weights), -20_000 + 90_000 + 8_000 - 80_000);
    let all = DimensionScores {
        token_count: 1000,
        code_presence: 1000,
        reasoning_markers: 1000,
        technical_terms: 1000,
        creative_markers: 1000,
        simple_indicators: 1000,
        multi_step_patterns: 1000,
        question_complexity: 1000,
        imperative_verbs: 1000,
        constraint_count: 1000,
        output_format: 1000,
        reference_complexity: 1000,
        negation_complexity: 1000,
        domain_specificity: 1000,
        agentic_task: 1000,
    };
    assert_eq!(compute_weighted_score(&all, &weights), 900_000);
    let extreme = DimensionScores {
        token_count: i16::MIN,
        code_presence: i16::MIN,
        reasoning_markers: i16::MIN,
        technical_terms: i16::MIN,
        creative_markers: i16::MIN,
        simple_indicators: i16::MAX,
        multi_step_patterns: i16::MIN,
        question_complexity: i16::MIN,
        imperative_verbs: i16::MIN,
        constraint_count: i16::MIN,
        output_format: i16::MIN,
        reference_complexity: i16::MIN,
        negation_complexity: i16::MIN,
        domain_specificity: i16::MIN,
        agentic_task: i16::MIN,
    };
    let heavy = ScorerWeights {
        token_count: i32::MAX,
        code_presence: i32::MAX,
        reasoning_markers: i32::MAX,
        technical_terms: i32::MAX,
        creative_markers: i32::MAX,
        simple_indicators: i32::MAX,
        multi_step_patterns: i32::MAX,
        question_complexity: i32::MAX,
        imperative_verbs: i32::MAX,
        constraint_count: i32::MAX,
        output_format: i32::MAX,
        reference_complexity: i32::MAX,
        negation_complexity: i32::MAX,
        domain_specificity: i32::MAX,
        agentic_task: i32::MAX,
    };
    let expected = 14 * (i16::MIN as i64) * (i32::MAX as i64) - (i16::MAX as i64) * (i32::MAX as i64);
    assert_eq!(compute_weighted_score(&extreme, &heavy), expected);
}

#[test]
fn tiers_follow_the_boundaries() {
    let b = TierBoundaries::default();
    assert_eq!(classify_tier(-1, &b), ComplexityTier::Simple);
    assert_eq!(classify_tier(0, &b), ComplexityTier::Medium);
    assert_eq!(classify_tier(299_999, &b), ComplexityTier::Medium);
    assert_eq!(classify_tier(300_000, &b), ComplexityTier::Complex);
    assert_eq!(classify_tier(499_999, &b), ComplexityTier::Complex);
    assert_eq!(classify_tier(500_000, &b), ComplexityTier::Reasoning);
    assert_eq!(classify_tier(i64::MAX, &b), ComplexityTier::Reasoning);
    assert_eq!(classify_tier(i64::MIN, &b), ComplexityTier::Simple);
}

#[test]
fn a_tier_never_falls_as_the_score_rises() {
    let rank = |t: ComplexityTier| match t {
        ComplexityTier::Simple => 0,
        ComplexityTier::Medium => 1,
        ComplexityTier::Complex => 2,
        ComplexityTier::Reasoning => 3,
    };
    let odd = TierBoundaries { simple_upper: 400, medium_upper: -100, complex_upper: 200 };
    for b in [TierBoundaries::default(), odd] {
        let mut last = 0;
        let mut score = -600_000;
        while score <= 600_000 {
            let r = rank(classify_tier(score, &b));
            assert!(r >= last);
            last = r;
            score += 50_000;
        }
    }
}

#[test]
fn distance_is_taken_to_the_nearest_boundary() {
    let b = TierBoundaries::default();
    assert_eq!(boundary_distance(0, &b), 0);
    assert_eq!(boundary_distance(500_000, &b), 0);
    assert_eq!(boundary_distance(-86_000, &b), 86_000);
    assert_eq!(boundary_distance(200_000, &b), 100_000);
    assert_eq!(boundary_distance(420_000, &b), 80_000);
    assert_eq!(boundary_distance(900_000, &b), 400_000);
    assert_eq!(boundary_distance(i64::MAX, &b), i64::MAX as u64 - 500_000);
    assert_eq!(boundary_distance(i64::MIN, &b), 1u64 << 63);
}

#[test]
fn token_override_lifts_to_complex() {
    let mut config = ScorerConfig::default();
    config.max_tokens_force_complex = 2;
    let result = Scorer::score(&[make_user_message("hello there you")], &config);
    assert_eq!(result.tier, ComplexityTier::Complex);
    assert_eq!(result.override_applied, Some("token_count_force_complex".to_string()));
    // Exactly at the limit nothing is forced.
    config.max_tokens_force_complex = 3;
    let result = Scorer::score(&[make_user_message("hello there you")], &config);
    assert_eq!(result.tier, ComplexityTier::Simple);
    assert_eq!(result.override_applied, None);
}

#[test]
fn later_overrides_win() {
    let mut config = ScorerConfig::default();
    config.max_tokens_force_complex = 0;
    // Token override first, then reasoning markers force Reasoning.
    let result = Scorer::score(&[make_user_message("prove the theorem as json")], &config);
    assert_eq!(result.tier, ComplexityTier::Reasoning);
    assert_eq!(result.override_applied, Some("reasoning_markers_force".to_string()));
    // After the token override the tier is Complex, so the structured-output
    // override does not apply.
    let result = Scorer::score(&[make_user_message("what is json")], &config);
    assert_eq!(result.tier, ComplexityTier::Complex);
    assert_eq!(result.override_applied, Some("token_count_force_complex".to_string()));
}

#[test]
fn default_configuration() {
    let config = ScorerConfig::default();
    assert!(config.enabled);
    assert_eq!(config.confidence_steepness, 12_000);
    assert_eq!(config.confidence_threshold, 700);
    assert_eq!(config.max_tokens_force_complex, 100_000);
    assert_eq!(config.token_thresholds.short_upper, 500);
    assert_eq!(config.token_thresholds.long_lower, 3000);
    assert_eq!(config.tier_boundaries.simple_upper, 0);
    assert_eq!(config.tier_boundaries.medium_upper, 300);
    assert_eq!(config.tier_boundaries.complex_upper, 500);
    let w = config.weights;
    assert_eq!(
        [
            w.token_count,
            w.code_presence,
            w.reasoning_markers,
            w.technical_terms,
            w.creative_markers,
            w.simple_indicators,
            w.multi_step_patterns,
            w.question_complexity,
            w.imperative_verbs,
            w.constraint_count,
            w.output_format,
            w.reference_complexity,
            w.negation_complexity,
            w.domain_specificity,
            w.agentic_task
        ],
        [80, 150, 180, 100, 50, 20, 120, 50, 30, 40, 30, 20, 10, 20, 40]
    );
    assert_eq!(ComplexityTier::Reasoning.name(), "Reasoning");
    assert_eq!(ComplexityTier::Simple.name(), "Simple");
}

#[test]
fn a_text_is_scored_as_it_stands() {
    let config = ScorerConfig::default();
    let lower = Scorer::score_text("what is json?", &config);
    assert_eq!(lower.tier, ComplexityTier::Medium);
    assert_eq!(lower.raw_score, -77_000);
    assert_eq!(lower.signals, vec!["simple:1", "output_format:1"]);
    assert_eq!(lower.override_applied, Some("structured_output_min_medium".to_string()));
    // The text is not lower-cased again: upper-case letters match no
    // lower-case keyword, and an upper-case keyword can match.
    let upper = Scorer::score_text("WHAT IS JSON?", &config);
    assert_eq!(upper.raw_score, -80_000);
    assert!(upper.signals.is_empty());
    assert_eq!(upper.tier, ComplexityTier::Simple);
    let sql = Scorer::score_text("SELECT 1", &config);
    assert_eq!(sql.signals, vec!["code:1"]);
    assert_eq!(sql.raw_score, -35_000);
    let empty = Scorer::score_text("", &config);
    assert_eq!((empty.raw_score, empty.boundary_distance), (-80_000, 80_000));
}
