//! The complexity scorer: fifteen weighted dimensions over the user's text,
//! a tier classification and three overrides.
//!
//! Everything is fixed point. Dimension scores, weights, boundaries and the
//! confidence knobs are thousandths; a raw score is a sum of products of a
//! dimension score and a weight, so it is in millionths.

use vstd::prelude::*;
use crate::message::{ChatMessage, ContentPart, MessageContent, has_role, role_text};
use crate::text::{
    chars_of, count_char, count_char_in, count_hits, count_keyword_hits, decimal, decimal_string,
    join_lines, join_with_newlines, lowercase_of, str_eq, string_views, to_lowercase, views_of,
};

verus! {

/// Complexity tier of a request, in increasing order. Distinct from the
/// pricing tier of a provider.
#[derive(Debug, Clone, Copy, PartialEq, Eq, Structural)]
pub enum ComplexityTier {
    Simple,
    Medium,
    Complex,
    Reasoning,
}

impl ComplexityTier {
    /// The position of the tier in the order Simple, Medium, Complex,
    /// Reasoning.
    pub open spec fn rank(self) -> int {
        match self {
            ComplexityTier::Simple => 0,
            ComplexityTier::Medium => 1,
            ComplexityTier::Complex => 2,
            ComplexityTier::Reasoning => 3,
        }
    }

    /// The name under which the tier is logged.
    pub open spec fn label(self) -> Seq<char> {
        match self {
            ComplexityTier::Simple => "Simple"@,
            ComplexityTier::Medium => "Medium"@,
            ComplexityTier::Complex => "Complex"@,
            ComplexityTier::Reasoning => "Reasoning"@,
        }
    }

    /// The name under which the tier is logged.
    pub fn name(self) -> (r: &'static str)
        ensures
            r@ == self.label(),
    {
        match self {
            ComplexityTier::Simple => "Simple",
            ComplexityTier::Medium => "Medium",
            ComplexityTier::Complex => "Complex",
            ComplexityTier::Reasoning => "Reasoning",
        }
    }
}

/// Per-dimension raw scores, in thousandths.
#[derive(Debug, Clone, Copy)]
pub struct DimensionScores {
    pub token_count: i16,
    pub code_presence: i16,
    pub reasoning_markers: i16,
    pub technical_terms: i16,
    pub creative_markers: i16,
    pub simple_indicators: i16,
    pub multi_step_patterns: i16,
    pub question_complexity: i16,
    pub imperative_verbs: i16,
    pub constraint_count: i16,
    pub output_format: i16,
    pub reference_complexity: i16,
    pub negation_complexity: i16,
    pub domain_specificity: i16,
    pub agentic_task: i16,
}

/// Per-dimension weights, in thousandths. The weight of `simple_indicators`
/// is subtracted.
#[derive(Debug, Clone, Copy)]
pub struct ScorerWeights {
    pub token_count: i32,
    pub code_presence: i32,
    pub reasoning_markers: i32,
    pub technical_terms: i32,
    pub creative_markers: i32,
    pub simple_indicators: i32,
    pub multi_step_patterns: i32,
    pub question_complexity: i32,
    pub imperative_verbs: i32,
    pub constraint_count: i32,
    pub output_format: i32,
    pub reference_complexity: i32,
    pub negation_complexity: i32,
    pub domain_specificity: i32,
    pub agentic_task: i32,
}

/// Upper bounds of the three lower tiers, in thousandths.
#[derive(Debug, Clone, Copy)]
pub struct TierBoundaries {
    pub simple_upper: i32,
    pub medium_upper: i32,
    pub complex_upper: i32,
}

/// Token estimates below `short_upper` count as short, above `long_lower` as
/// long.
#[derive(Debug, Clone, Copy)]
pub struct TokenThresholds {
    pub short_upper: usize,
    pub long_lower: usize,
}

/// Scorer knobs. The two confidence knobs are thousandths.
#[derive(Debug, Clone, Copy)]
pub struct ScorerConfig {
    pub enabled: bool,
    pub weights: ScorerWeights,
    pub tier_boundaries: TierBoundaries,
    pub token_thresholds: TokenThresholds,
    pub confidence_steepness: i32,
    pub confidence_threshold: i32,
    pub max_tokens_force_complex: usize,
}

impl ScorerWeights {
    /// The weights a scorer starts with.
    pub open spec fn standard() -> ScorerWeights {
        ScorerWeights {
            token_count: 80,
            code_presence: 150,
            reasoning_markers: 180,
            technical_terms: 100,
            creative_markers: 50,
            simple_indicators: 20,
            multi_step_patterns: 120,
            question_complexity: 50,
            imperative_verbs: 30,
            constraint_count: 40,
            output_format: 30,
            reference_complexity: 20,
            negation_complexity: 10,
            domain_specificity: 20,
            agentic_task: 40,
        }
    }
}

impl TierBoundaries {
    /// The boundaries a scorer starts with: 0, 0.3 and 0.5.
    pub open spec fn standard() -> TierBoundaries {
        TierBoundaries { simple_upper: 0, medium_upper: 300, complex_upper: 500 }
    }
}

impl TokenThresholds {
    /// The thresholds a scorer starts with.
    pub open spec fn standard() -> TokenThresholds {
        TokenThresholds { short_upper: 500, long_lower: 3000 }
    }
}

impl ScorerConfig {
    /// The configuration a scorer starts with.
    pub open spec fn standard() -> ScorerConfig {
        ScorerConfig {
            enabled: true,
            weights: ScorerWeights::standard(),
            tier_boundaries: TierBoundaries::standard(),
            token_thresholds: TokenThresholds::standard(),
            confidence_steepness: 12000,
            confidence_threshold: 700,
            max_tokens_force_complex: 100000,
        }
    }
}

impl Default for ScorerWeights {
    fn default() -> (r: Self)
        ensures
            r == ScorerWeights::standard(),
    {
        ScorerWeights {
            token_count: 80,
            code_presence: 150,
            reasoning_markers: 180,
            technical_terms: 100,
            creative_markers: 50,
            simple_indicators: 20,
            multi_step_patterns: 120,
            question_complexity: 50,
            imperative_verbs: 30,
            constraint_count: 40,
            output_format: 30,
            reference_complexity: 20,
            negation_complexity: 10,
            domain_specificity: 20,
            agentic_task: 40,
        }
    }
}

impl Default for TierBoundaries {
    fn default() -> (r: Self)
        ensures
            r == TierBoundaries::standard(),
    {
        TierBoundaries { simple_upper: 0, medium_upper: 300, complex_upper: 500 }
    }
}

impl Default for TokenThresholds {
    fn default() -> (r: Self)
        ensures
            r == TokenThresholds::standard(),
    {
        TokenThresholds { short_upper: 500, long_lower: 3000 }
    }
}

impl Default for ScorerConfig {
    fn default() -> (r: Self)
        ensures
            r == ScorerConfig::standard(),
    {
        ScorerConfig {
            enabled: true,
            weights: ScorerWeights::default(),
            tier_boundaries: TierBoundaries::default(),
            token_thresholds: TokenThresholds::default(),
            confidence_steepness: 12000,
            confidence_threshold: 700,
            max_tokens_force_complex: 100000,
        }
    }
}

pub const CODE_KEYWORDS: [&'static str; 22] = [
    "function", "class", "import", "const", "let", "var", "return", "async", "await", "def ",
    "print(", "console.log", "```", "pub fn", "impl ", "struct ", "enum ", "SELECT", "INSERT",
    "UPDATE", "DELETE", "CREATE TABLE",
];

pub const REASONING_KEYWORDS: [&'static str; 18] = [
    "prove", "theorem", "derive", "step by step", "chain of thought", "formally", "mathematical",
    "proof", "logically", "contradiction", "induction", "hypothesis", "therefore", "axiom",
    "lemma", "corollary", "deduce", "implies",
];

pub const TECHNICAL_KEYWORDS: [&'static str; 16] = [
    "algorithm", "optimize", "architecture", "distributed", "kubernetes", "microservice",
    "database", "infrastructure", "concurrent", "latency", "throughput", "scalable", "middleware",
    "authentication", "authorization", "encryption",
];

pub const CREATIVE_KEYWORDS: [&'static str; 12] = [
    "story", "poem", "compose", "brainstorm", "creative", "imagine", "write a", "fiction",
    "narrative", "character", "plot", "metaphor",
];

pub const SIMPLE_KEYWORDS: [&'static str; 11] = [
    "what is", "define", "translate", "hello", "yes or no", "capital of", "how old", "who is",
    "when was", "meaning of", "true or false",
];

pub const IMPERATIVE_KEYWORDS: [&'static str; 13] = [
    "build", "create", "implement", "design", "develop", "construct", "generate", "deploy",
    "configure", "set up", "refactor", "migrate", "integrate",
];

pub const CONSTRAINT_KEYWORDS: [&'static str; 11] = [
    "under", "at most", "at least", "within", "no more than", "o(", "maximum", "minimum", "limit",
    "budget", "constraint",
];

pub const OUTPUT_FORMAT_KEYWORDS: [&'static str; 10] = [
    "json", "yaml", "xml", "table", "csv", "markdown", "schema", "format as", "structured",
    "output as",
];

pub const REFERENCE_KEYWORDS: [&'static str; 10] = [
    "above", "below", "previous", "following", "the docs", "the api", "the code", "earlier",
    "attached", "mentioned",
];

pub const NEGATION_KEYWORDS: [&'static str; 10] = [
    "don't", "do not", "avoid", "never", "without", "except", "exclude", "no longer", "must not",
    "shouldn't",
];

pub const DOMAIN_KEYWORDS: [&'static str; 12] = [
    "quantum", "fpga", "vlsi", "risc-v", "asic", "photonics", "genomics", "proteomics",
    "topological", "homomorphic", "zero-knowledge", "lattice-based",
];

pub const AGENTIC_KEYWORDS: [&'static str; 30] = [
    "read file", "read the file", "look at", "check the", "open the", "edit", "modify",
    "update the", "change the", "write to", "create file", "execute", "deploy", "install", "npm",
    "pip", "compile", "after that", "and also", "once done", "step 1", "step 2", "fix", "debug",
    "until it works", "keep trying", "iterate", "make sure", "verify", "confirm",
];

/// The pattern that detects a request laid out in steps.
pub const MULTI_STEP_PATTERN: &'static str = r"(?i)(first\b.*\bthen\b|step\s+\d|1\.\s.*2\.\s)";

/// Whether `regex::Regex::new` accepts the pattern.
pub uninterp spec fn regex_compiles(pattern: Seq<char>) -> bool;

/// What `regex::Regex::is_match` returns for the text, on the expression
/// compiled from the pattern.
pub uninterp spec fn regex_is_match(pattern: Seq<char>, text: Seq<char>) -> bool;

/// Compiles the pattern with `regex::Regex::new` and searches the text with
/// `Regex::is_match`. The contract only names the two results: `None` when the
/// pattern does not compile, else whether the expression matches somewhere in
/// the text.
#[verifier::external_body]
fn regex_search(pattern: &str, text: &str) -> (r: Option<bool>)
    ensures
        r == if regex_compiles(pattern@) {
            Some(regex_is_match(pattern@, text@))
        } else {
            None
        },
{
    match regex::Regex::new(pattern) {
        Ok(re) => Some(re.is_match(text)),
        Err(_) => None,
    }
}


/// The texts that one content part contributes: its text, if it is a text
/// part.
pub open spec fn part_texts(p: ContentPart) -> Seq<Seq<char>> {
    if p.kind is Some && p.kind->0@ == "text"@ && p.text is Some {
        seq![p.text->0@]
    } else {
        Seq::empty()
    }
}

/// The texts of the first `upto` parts.
pub open spec fn parts_texts_upto(parts: Seq<ContentPart>, upto: int) -> Seq<Seq<char>>
    decreases upto,
{
    if upto <= 0 {
        Seq::empty()
    } else {
        parts_texts_upto(parts, upto - 1) + part_texts(parts[upto - 1])
    }
}

/// The texts that one message contributes: nothing unless its role is
/// `user`; then its string content, or the texts of its text parts.
pub open spec fn message_texts(m: ChatMessage) -> Seq<Seq<char>> {
    if role_text(m) != "user"@ {
        Seq::empty()
    } else {
        match m.content {
            MessageContent::Text(s) => seq![s@],
            MessageContent::Parts(parts) => parts_texts_upto(parts@, parts@.len() as int),
            MessageContent::Other => Seq::empty(),
        }
    }
}

/// The texts of the first `upto` messages.
pub open spec fn user_texts_upto(messages: Seq<ChatMessage>, upto: int) -> Seq<Seq<char>>
    decreases upto,
{
    if upto <= 0 {
        Seq::empty()
    } else {
        user_texts_upto(messages, upto - 1) + message_texts(messages[upto - 1])
    }
}

/// The text that is scored: the user texts joined by line feeds, in lower
/// case.
pub open spec fn extracted_text(messages: Seq<ChatMessage>) -> Seq<char> {
    lowercase_of(join_lines(user_texts_upto(messages, messages.len() as int)))
}

fn is_text_part(p: &ContentPart) -> (r: bool)
    ensures
        r == (p.kind is Some && p.kind->0@ == "text"@),
{
    match &p.kind {
        Some(k) => str_eq(k.as_str(), "text"),
        None => false,
    }
}

/// Extracts the text of the user messages, in lower case.
pub fn extract_text(messages: &[ChatMessage]) -> (text: String)
    ensures
        text@ == extracted_text(messages@),
{
    let mut parts: Vec<String> = Vec::new();
    let mut i: usize = 0;
    while i < messages.len()
        invariant
            i <= messages.len(),
            string_views(parts@) =~= user_texts_upto(messages@, i as int),
        decreases messages.len() - i,
    {
        let msg = &messages[i];
        let ghost before = string_views(parts@);
        if has_role(msg, "user") {
            match &msg.content {
                MessageContent::Text(s) => {
                    parts.push(s.clone());
                    assert(string_views(parts@) =~= before + seq![s@]);
                },
                MessageContent::Parts(items) => {
                    let mut j: usize = 0;
                    while j < items.len()
                        invariant
                            j <= items.len(),
                            string_views(parts@) =~= before + parts_texts_upto(items@, j as int),
                        decreases items.len() - j,
                    {
                        let item = &items[j];
                        let ghost sofar = string_views(parts@);
                        if is_text_part(item) {
                            match &item.text {
                                Some(t) => {
                                    parts.push(t.clone());
                                    assert(string_views(parts@) =~= sofar + seq![t@]);
                                },
                                None => {},
                            }
                        }
                        j += 1;
                    }
                },
                MessageContent::Other => {},
            }
        }
        i += 1;
    }
    let joined = join_with_newlines(&parts);
    to_lowercase(joined.as_str())
}

/// The token estimate of a text: a quarter of its length in characters.
pub open spec fn token_estimate(text: Seq<char>) -> nat {
    text.len() / 4
}

/// Estimates the number of tokens of a text.
pub fn estimate_token_count(text: &str) -> (n: usize)
    ensures
        n == token_estimate(text@),
{
    text.unicode_len() / 4
}

/// The token-count dimension: short texts pull the score down, long ones up.
pub open spec fn token_score(tokens: nat, thresholds: TokenThresholds) -> int {
    if tokens < thresholds.short_upper {
        -1000
    } else if tokens > thresholds.long_lower {
        1000
    } else {
        0
    }
}

/// Scores the estimated token count.
pub fn score_token_count(text: &str, thresholds: &TokenThresholds) -> (r: i16)
    ensures
        r == token_score(token_estimate(text@), *thresholds),
{
    let tokens = estimate_token_count(text);
    if tokens < thresholds.short_upper {
        -1000
    } else if tokens > thresholds.long_lower {
        1000
    } else {
        0
    }
}

/// The score of a keyword dimension with `count` hits.
pub open spec fn keyword_score(count: nat) -> int {
    if count == 0 {
        0
    } else if count == 1 {
        300
    } else if count == 2 {
        600
    } else {
        1000
    }
}

/// The score of the agentic dimension with `count` hits.
pub open spec fn agentic_score(count: nat) -> int {
    if count == 0 {
        0
    } else if count <= 2 {
        200
    } else if count == 3 {
        600
    } else {
        1000
    }
}

/// The signal that a counting dimension leaves: none for no hit, else the
/// dimension's name, a colon and the count.
pub open spec fn count_signal(name: Seq<char>, count: nat) -> Seq<Seq<char>> {
    if count > 0 {
        seq![name + seq![':'] + decimal(count)]
    } else {
        Seq::empty()
    }
}

fn push_count_signal(name: &str, count: usize, signals: &mut Vec<String>)
    ensures
        string_views(final(signals)@) == string_views(old(signals)@) + count_signal(
            name@,
            count as nat,
        ),
{
    if count > 0 {
        let mut s = name.to_owned();
        s.append(":");
        let digits = decimal_string(count as u64);
        s.append(digits.as_str());
        proof {
            reveal_strlit(":");
            assert(":"@ =~= seq![':']);
        }
        let ghost before = string_views(signals@);
        signals.push(s);
        assert(string_views(signals@) =~= before + count_signal(name@, count as nat));
    } else {
        assert(string_views(signals@) =~= string_views(signals@) + count_signal(
            name@,
            count as nat,
        ));
    }
}

/// Counts the keywords that stand in the text, records the count under
/// `signal_name` and maps it to a score.
pub fn score_keyword_match(
    text: &str,
    keywords: &[&'static str],
    signal_name: &str,
    signals: &mut Vec<String>,
) -> (r: i16)
    ensures
        r == keyword_score(count_hits(text@, views_of(keywords@))),
        string_views(final(signals)@) == string_views(old(signals)@) + count_signal(
            signal_name@,
            count_hits(text@, views_of(keywords@)),
        ),
{
    let chars = chars_of(text);
    let count = count_keyword_hits(&chars, keywords);
    push_count_signal(signal_name, count, signals);
    if count == 0 {
        0
    } else if count == 1 {
        300
    } else if count == 2 {
        600
    } else {
        1000
    }
}

/// Whether the text is laid out in steps.
pub open spec fn multi_step_detected(text: Seq<char>) -> bool {
    regex_compiles(MULTI_STEP_PATTERN@) && regex_is_match(MULTI_STEP_PATTERN@, text)
}

/// The score of the multi-step dimension.
pub open spec fn multi_step_score(text: Seq<char>) -> int {
    if multi_step_detected(text) {
        500
    } else {
        0
    }
}

/// The signal of the multi-step dimension.
pub open spec fn multi_step_signal(text: Seq<char>) -> Seq<Seq<char>> {
    if multi_step_detected(text) {
        seq!["multi_step"@]
    } else {
        Seq::empty()
    }
}

/// Detects a layout in steps.
pub fn score_multi_step(text: &str, signals: &mut Vec<String>) -> (r: i16)
    ensures
        r == multi_step_score(text@),
        string_views(final(signals)@) == string_views(old(signals)@) + multi_step_signal(text@),
{
    let ghost before = string_views(signals@);
    match regex_search(MULTI_STEP_PATTERN, text) {
        Some(true) => {
            signals.push("multi_step".to_owned());
            assert(string_views(signals@) =~= before + multi_step_signal(text@));
            500
        },
        _ => {
            assert(string_views(signals@) =~= before + multi_step_signal(text@));
            0
        },
    }
}

/// The score of the question dimension: more than three question marks
/// count.
pub open spec fn question_score(text: Seq<char>) -> int {
    if count_char(text, '?') > 3 {
        500
    } else {
        0
    }
}

/// The signal of the question dimension.
pub open spec fn question_signal(text: Seq<char>) -> Seq<Seq<char>> {
    if count_char(text, '?') > 3 {
        count_signal("questions"@, count_char(text, '?'))
    } else {
        Seq::empty()
    }
}

/// Scores the number of question marks: more than three count.
pub fn score_question_complexity(text: &str, signals: &mut Vec<String>) -> (r: i16)
    ensures
        r == question_score(text@),
        string_views(final(signals)@) == string_views(old(signals)@) + question_signal(text@),
{
    let chars = chars_of(text);
    let count = count_char_in(&chars, '?');
    if count > 3 {
        push_count_signal("questions", count, signals);
        500
    } else {
        assert(string_views(signals@) =~= string_views(signals@) + question_signal(text@));
        0
    }
}

/// Scores the agentic keywords and returns the raw count beside the score.
pub fn score_agentic_task(text: &str, keywords: &[&'static str], signals: &mut Vec<String>) -> (r:
    (i16, usize))
    ensures
        r.0 == agentic_score(count_hits(text@, views_of(keywords@))),
        r.1 == count_hits(text@, views_of(keywords@)),
        string_views(final(signals)@) == string_views(old(signals)@) + count_signal(
            "agentic"@,
            count_hits(text@, views_of(keywords@)),
        ),
{
    let chars = chars_of(text);
    let count = count_keyword_hits(&chars, keywords);
    let score: i16 = if count == 0 {
        0
    } else if count <= 2 {
        200
    } else if count == 3 {
        600
    } else {
        1000
    };
    push_count_signal("agentic", count, signals);
    (score, count)
}

/// The weighted sum of the dimensions, in millionths. The simple-indicator
/// term is subtracted.
pub open spec fn weighted_sum(d: DimensionScores, w: ScorerWeights) -> int {
    d.token_count * w.token_count + d.code_presence * w.code_presence + d.reasoning_markers
        * w.reasoning_markers + d.technical_terms * w.technical_terms + d.creative_markers
        * w.creative_markers - d.simple_indicators * w.simple_indicators + d.multi_step_patterns
        * w.multi_step_patterns + d.question_complexity * w.question_complexity
        + d.imperative_verbs * w.imperative_verbs + d.constraint_count * w.constraint_count
        + d.output_format * w.output_format + d.reference_complexity * w.reference_complexity
        + d.negation_complexity * w.negation_complexity + d.domain_specificity
        * w.domain_specificity + d.agentic_task * w.agentic_task
}

fn weigh(d: i16, w: i32) -> (r: i64)
    ensures
        r == d * w,
        -0x4000_0000_0000 <= r <= 0x4000_0000_0000,
{
    assert(-0x4000_0000_0000 <= d * w <= 0x4000_0000_0000) by (nonlinear_arith)
        requires
            -0x8000 <= d <= 0x7fff,
            -0x8000_0000 <= w <= 0x7fff_ffff,
    ;
    (d as i64) * (w as i64)
}

/// Computes the weighted sum of the dimensions.
pub fn compute_weighted_score(d: &DimensionScores, w: &ScorerWeights) -> (r: i64)
    ensures
        r == weighted_sum(*d, *w),
{
    weigh(d.token_count, w.token_count) + weigh(d.code_presence, w.code_presence) + weigh(
        d.reasoning_markers,
        w.reasoning_markers,
    ) + weigh(d.technical_terms, w.technical_terms) + weigh(d.creative_markers, w.creative_markers)
        - weigh(d.simple_indicators, w.simple_indicators) + weigh(
        d.multi_step_patterns,
        w.multi_step_patterns,
    ) + weigh(d.question_complexity, w.question_complexity) + weigh(
        d.imperative_verbs,
        w.imperative_verbs,
    ) + weigh(d.constraint_count, w.constraint_count) + weigh(d.output_format, w.output_format)
        + weigh(d.reference_complexity, w.reference_complexity) + weigh(
        d.negation_complexity,
        w.negation_complexity,
    ) + weigh(d.domain_specificity, w.domain_specificity) + weigh(d.agentic_task, w.agentic_task)
}

/// The tier of a raw score: Simple below the first boundary, Medium below
/// the second, Complex below the third, Reasoning from there on.
pub open spec fn tier_of(score: int, b: TierBoundaries) -> ComplexityTier {
    if score < b.simple_upper * 1000 {
        ComplexityTier::Simple
    } else if score < b.medium_upper * 1000 {
        ComplexityTier::Medium
    } else if score < b.complex_upper * 1000 {
        ComplexityTier::Complex
    } else {
        ComplexityTier::Reasoning
    }
}

/// Maps a raw score to its tier.
pub fn classify_tier(score: i64, boundaries: &TierBoundaries) -> (r: ComplexityTier)
    ensures
        r == tier_of(score as int, *boundaries),
{
    if score < (boundaries.simple_upper as i64) * 1000 {
        ComplexityTier::Simple
    } else if score < (boundaries.medium_upper as i64) * 1000 {
        ComplexityTier::Medium
    } else if score < (boundaries.complex_upper as i64) * 1000 {
        ComplexityTier::Complex
    } else {
        ComplexityTier::Reasoning
    }
}

/// A tier never falls as the score rises.
pub proof fn lemma_tier_monotonic(low: int, high: int, b: TierBoundaries)
    requires
        low <= high,
    ensures
        tier_of(low, b).rank() <= tier_of(high, b).rank(),
{
}

/// The distance between two integers.
pub open spec fn distance(a: int, b: int) -> int {
    if a >= b {
        a - b
    } else {
        b - a
    }
}

/// The smaller of two integers.
pub open spec fn smaller(a: int, b: int) -> int {
    if a <= b {
        a
    } else {
        b
    }
}

/// The distance from a raw score to the nearest of the three boundaries, in
/// millionths. Confidence is the logistic function of the steepness times
/// this distance: one half at a boundary, rising towards one with the
/// distance.
pub open spec fn distance_to_boundaries(score: int, b: TierBoundaries) -> int {
    smaller(
        distance(score, b.simple_upper * 1000),
        smaller(distance(score, b.medium_upper * 1000), distance(score, b.complex_upper * 1000)),
    )
}

fn gap(score: i64, boundary: i32) -> (r: u64)
    ensures
        r == distance(score as int, boundary * 1000),
{
    let s = score as i128;
    let b = (boundary as i128) * 1000;
    if s >= b {
        (s - b) as u64
    } else {
        (b - s) as u64
    }
}

/// Measures how far a raw score is from the nearest boundary.
pub fn boundary_distance(score: i64, boundaries: &TierBoundaries) -> (r: u64)
    ensures
        r == distance_to_boundaries(score as int, *boundaries),
{
    let a = gap(score, boundaries.simple_upper);
    let b = gap(score, boundaries.medium_upper);
    let c = gap(score, boundaries.complex_upper);
    let bc = if b <= c {
        b
    } else {
        c
    };
    if a <= bc {
        a
    } else {
        bc
    }
}

/// A score that sits on a boundary has distance zero, and no score has a
/// negative distance.
pub proof fn lemma_distance_zero_at_boundary(score: int, b: TierBoundaries)
    ensures
        distance_to_boundaries(score, b) >= 0,
        distance_to_boundaries(score, b) == 0 <==> (score == b.simple_upper * 1000 || score
            == b.medium_upper * 1000 || score == b.complex_upper * 1000),
{
}


/// The outcome of scoring one request.
#[derive(Debug, Clone)]
pub struct ScoringResult {
    pub tier: ComplexityTier,
    /// The weighted sum, in millionths.
    pub raw_score: i64,
    /// The distance from the raw score to the nearest boundary, in
    /// millionths; confidence is derived from it.
    pub boundary_distance: u64,
    pub signals: Vec<String>,
    pub override_applied: Option<String>,
    /// How many agentic keywords stand in the text.
    pub agentic_keyword_count: usize,
}

/// A `ScoringResult` as mathematical values.
pub struct ScoringView {
    pub tier: ComplexityTier,
    pub raw_score: int,
    pub boundary_distance: int,
    pub signals: Seq<Seq<char>>,
    pub override_applied: Option<Seq<char>>,
    pub agentic_keyword_count: nat,
}

impl View for ScoringResult {
    type V = ScoringView;

    open spec fn view(&self) -> ScoringView {
        ScoringView {
            tier: self.tier,
            raw_score: self.raw_score as int,
            boundary_distance: self.boundary_distance as int,
            signals: string_views(self.signals@),
            override_applied: match self.override_applied {
                Some(s) => Some(s@),
                None => None,
            },
            agentic_keyword_count: self.agentic_keyword_count as nat,
        }
    }
}

/// The fifteen dimension scores of a text.
pub open spec fn dimensions_of(text: Seq<char>, thresholds: TokenThresholds) -> DimensionScores {
    DimensionScores {
        token_count: token_score(token_estimate(text), thresholds) as i16,
        code_presence: keyword_score(count_hits(text, views_of(CODE_KEYWORDS@))) as i16,
        reasoning_markers: keyword_score(count_hits(text, views_of(REASONING_KEYWORDS@))) as i16,
        technical_terms: keyword_score(count_hits(text, views_of(TECHNICAL_KEYWORDS@))) as i16,
        creative_markers: keyword_score(count_hits(text, views_of(CREATIVE_KEYWORDS@))) as i16,
        simple_indicators: keyword_score(count_hits(text, views_of(SIMPLE_KEYWORDS@))) as i16,
        multi_step_patterns: multi_step_score(text) as i16,
        question_complexity: question_score(text) as i16,
        imperative_verbs: keyword_score(count_hits(text, views_of(IMPERATIVE_KEYWORDS@))) as i16,
        constraint_count: keyword_score(count_hits(text, views_of(CONSTRAINT_KEYWORDS@))) as i16,
        output_format: keyword_score(count_hits(text, views_of(OUTPUT_FORMAT_KEYWORDS@))) as i16,
        reference_complexity: keyword_score(
            count_hits(text, views_of(REFERENCE_KEYWORDS@)),
        ) as i16,
        negation_complexity: keyword_score(count_hits(text, views_of(NEGATION_KEYWORDS@))) as i16,
        domain_specificity: keyword_score(count_hits(text, views_of(DOMAIN_KEYWORDS@))) as i16,
        agentic_task: agentic_score(count_hits(text, views_of(AGENTIC_KEYWORDS@))) as i16,
    }
}

/// The signals of a text, in the order in which the dimensions are scored:
/// the agentic count first, then the dimensions in their listed order.
pub open spec fn signals_of(text: Seq<char>) -> Seq<Seq<char>> {
    count_signal("agentic"@, count_hits(text, views_of(AGENTIC_KEYWORDS@))) + count_signal(
        "code"@,
        count_hits(text, views_of(CODE_KEYWORDS@)),
    ) + count_signal("reasoning"@, count_hits(text, views_of(REASONING_KEYWORDS@)))
        + count_signal("technical"@, count_hits(text, views_of(TECHNICAL_KEYWORDS@)))
        + count_signal("creative"@, count_hits(text, views_of(CREATIVE_KEYWORDS@)))
        + count_signal("simple"@, count_hits(text, views_of(SIMPLE_KEYWORDS@)))
        + multi_step_signal(text) + question_signal(text) + count_signal(
        "imperative"@,
        count_hits(text, views_of(IMPERATIVE_KEYWORDS@)),
    ) + count_signal("constraint"@, count_hits(text, views_of(CONSTRAINT_KEYWORDS@)))
        + count_signal("output_format"@, count_hits(text, views_of(OUTPUT_FORMAT_KEYWORDS@)))
        + count_signal("reference"@, count_hits(text, views_of(REFERENCE_KEYWORDS@)))
        + count_signal("negation"@, count_hits(text, views_of(NEGATION_KEYWORDS@)))
        + count_signal("domain"@, count_hits(text, views_of(DOMAIN_KEYWORDS@)))
}

/// The tier after the overrides, and the name of the last override that
/// applied. In this order: a token estimate above `max_tokens` lifts a tier
/// below Complex to Complex; a structured-output hit lifts Simple to Medium;
/// two or more reasoning markers force Reasoning.
pub open spec fn apply_overrides(
    tier: ComplexityTier,
    tokens: nat,
    d: DimensionScores,
    max_tokens: usize,
) -> (ComplexityTier, Option<Seq<char>>) {
    let first = if tokens > max_tokens && tier.rank() < ComplexityTier::Complex.rank() {
        (ComplexityTier::Complex, Some("token_count_force_complex"@))
    } else {
        (tier, None::<Seq<char>>)
    };
    let second = if d.output_format > 0 && first.0 == ComplexityTier::Simple {
        (ComplexityTier::Medium, Some("structured_output_min_medium"@))
    } else {
        first
    };
    if d.reasoning_markers >= 600 {
        (ComplexityTier::Reasoning, Some("reasoning_markers_force"@))
    } else {
        second
    }
}

/// The scoring of a text under a configuration: its dimensions, their
/// weighted sum, the tier of the sum after the overrides, the distance of the
/// sum from the nearest boundary, the signals and the count of agentic
/// keywords. The text is taken as it is; it is not lower-cased again.
pub open spec fn score_of_text(text: Seq<char>, config: ScorerConfig) -> ScoringView {
    let d = dimensions_of(text, config.token_thresholds);
    let raw = weighted_sum(d, config.weights);
    let overridden = apply_overrides(
        tier_of(raw, config.tier_boundaries),
        token_estimate(text),
        d,
        config.max_tokens_force_complex,
    );
    ScoringView {
        tier: overridden.0,
        raw_score: raw,
        boundary_distance: distance_to_boundaries(raw, config.tier_boundaries),
        signals: signals_of(text),
        override_applied: overridden.1,
        agentic_keyword_count: count_hits(text, views_of(AGENTIC_KEYWORDS@)),
    }
}

/// The scoring of a request under a configuration: that of the text
/// extracted from its messages.
pub open spec fn score_of(messages: Seq<ChatMessage>, config: ScorerConfig) -> ScoringView {
    score_of_text(extracted_text(messages), config)
}

/// The complexity scorer.
pub struct Scorer;

impl Scorer {
    /// Scores the messages of a request and classifies them into a tier.
    pub fn score(messages: &[ChatMessage], config: &ScorerConfig) -> (r: ScoringResult)
        ensures
            r@ == score_of(messages@, *config),
    {
        let text = extract_text(messages);
        Self::score_text(text.as_str(), config)
    }

    /// Scores a text that was extracted from a request and classifies it
    /// into a tier.
    pub fn score_text(text: &str, config: &ScorerConfig) -> (r: ScoringResult)
        ensures
            r@ == score_of_text(text@, *config),
    {
        let estimated_tokens = estimate_token_count(text);
        let mut signals: Vec<String> = Vec::new();
        assert(string_views(signals@) =~= Seq::<Seq<char>>::empty());

        let agentic = score_agentic_task(text, &AGENTIC_KEYWORDS, &mut signals);
        let token_count = score_token_count(text, &config.token_thresholds);
        let code_presence = score_keyword_match(text, &CODE_KEYWORDS, "code", &mut signals);
        let reasoning_markers = score_keyword_match(
            text,
            &REASONING_KEYWORDS,
            "reasoning",
            &mut signals,
        );
        let technical_terms = score_keyword_match(
            text,
            &TECHNICAL_KEYWORDS,
            "technical",
            &mut signals,
        );
        let creative_markers = score_keyword_match(
            text,
            &CREATIVE_KEYWORDS,
            "creative",
            &mut signals,
        );
        let simple_indicators = score_keyword_match(text, &SIMPLE_KEYWORDS, "simple", &mut signals);
        let multi_step_patterns = score_multi_step(text, &mut signals);
        let question_complexity = score_question_complexity(text, &mut signals);
        let imperative_verbs = score_keyword_match(
            text,
            &IMPERATIVE_KEYWORDS,
            "imperative",
            &mut signals,
        );
        let constraint_count = score_keyword_match(
            text,
            &CONSTRAINT_KEYWORDS,
            "constraint",
            &mut signals,
        );
        let output_format = score_keyword_match(
            text,
            &OUTPUT_FORMAT_KEYWORDS,
            "output_format",
            &mut signals,
        );
        let reference_complexity = score_keyword_match(
            text,
            &REFERENCE_KEYWORDS,
            "reference",
            &mut signals,
        );
        let negation_complexity = score_keyword_match(
            text,
            &NEGATION_KEYWORDS,
            "negation",
            &mut signals,
        );
        let domain_specificity = score_keyword_match(text, &DOMAIN_KEYWORDS, "domain", &mut signals);
        assert(string_views(signals@) =~= signals_of(text@));

        let dimensions = DimensionScores {
            token_count,
            code_presence,
            reasoning_markers,
            technical_terms,
            creative_markers,
            simple_indicators,
            multi_step_patterns,
            question_complexity,
            imperative_verbs,
            constraint_count,
            output_format,
            reference_complexity,
            negation_complexity,
            domain_specificity,
            agentic_task: agentic.0,
        };
        assert(dimensions == dimensions_of(text@, config.token_thresholds));

        let raw_score = compute_weighted_score(&dimensions, &config.weights);
        let mut tier = classify_tier(raw_score, &config.tier_boundaries);
        let distance = boundary_distance(raw_score, &config.tier_boundaries);
        let mut override_applied: Option<String> = None;

        if estimated_tokens > config.max_tokens_force_complex {
            match tier {
                ComplexityTier::Simple | ComplexityTier::Medium => {
                    tier = ComplexityTier::Complex;
                    override_applied = Some("token_count_force_complex".to_owned());
                },
                _ => {},
            }
        }
        if dimensions.output_format > 0 && tier == ComplexityTier::Simple {
            tier = ComplexityTier::Medium;
            override_applied = Some("structured_output_min_medium".to_owned());
        }
        if dimensions.reasoning_markers >= 600 {
            tier = ComplexityTier::Reasoning;
            override_applied = Some("reasoning_markers_force".to_owned());
        }
        ScoringResult {
            tier,
            raw_score,
            boundary_distance: distance,
            signals,
            override_applied,
            agentic_keyword_count: agentic.1,
        }
    }
}

} // verus!
