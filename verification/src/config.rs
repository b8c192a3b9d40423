//! Typed configuration: providers, models, routing profiles and the knobs of
//! the optional subsystems.

use vstd::prelude::*;
use crate::cache::{CacheConfig, CacheConfigView};
use crate::scorer::ScorerConfig;

verus! {

/// Session pinning knobs.
#[derive(Debug, Clone, Copy)]
pub struct SessionConfig {
    pub enabled: bool,
    /// Inactivity timeout in seconds.
    pub ttl_seconds: u64,
}

impl Default for SessionConfig {
    fn default() -> (r: Self)
        ensures
            !r.enabled,
            r.ttl_seconds == 3600,
    {
        SessionConfig { enabled: false, ttl_seconds: 3600 }
    }
}

/// The wire protocol an upstream provider speaks.
#[derive(Debug, Clone, Copy, PartialEq, Eq, Structural)]
pub enum ProviderType {
    OpenAI,
    Anthropic,
    Google,
    DeepSeek,
    XAI,
    CustomOpenAI,
}

/// Pricing tier of a provider. A profile's `allowed_tiers` list, not the
/// declaration order, decides which tier is preferred.
#[derive(Debug, Clone, Copy, PartialEq, Eq, Structural, PartialOrd, Ord, Hash)]
pub enum Tier {
    Subscription,
    Cheap,
    Free,
    PayPerRequest,
}

/// A model offered by a provider. Prices are millionths of a currency unit
/// per million tokens.
#[derive(Debug)]
pub struct Model {
    pub id: String,
    pub name: String,
    pub input_cost_per_1m: u64,
    pub output_cost_per_1m: u64,
    pub context_window: u32,
    pub supports_vision: bool,
    pub supports_function_calling: bool,
}

/// A `Model` as mathematical values.
pub struct ModelView {
    pub id: Seq<char>,
    pub name: Seq<char>,
    pub input_cost_per_1m: u64,
    pub output_cost_per_1m: u64,
    pub context_window: u32,
    pub supports_vision: bool,
    pub supports_function_calling: bool,
}

impl View for Model {
    type V = ModelView;

    open spec fn view(&self) -> ModelView {
        ModelView {
            id: self.id@,
            name: self.name@,
            input_cost_per_1m: self.input_cost_per_1m,
            output_cost_per_1m: self.output_cost_per_1m,
            context_window: self.context_window,
            supports_vision: self.supports_vision,
            supports_function_calling: self.supports_function_calling,
        }
    }
}

/// The views of a list of models.
pub open spec fn model_views(models: Seq<Model>) -> Seq<ModelView> {
    Seq::new(models.len(), |i: int| models[i]@)
}

/// The characters of an optional string.
pub open spec fn text_of(o: Option<String>) -> Option<Seq<char>> {
    match o {
        Some(s) => Some(s@),
        None => None,
    }
}

impl Clone for Model {
    fn clone(&self) -> (r: Self)
        ensures
            r == *self,
    {
        Model {
            id: self.id.clone(),
            name: self.name.clone(),
            input_cost_per_1m: self.input_cost_per_1m,
            output_cost_per_1m: self.output_cost_per_1m,
            context_window: self.context_window,
            supports_vision: self.supports_vision,
            supports_function_calling: self.supports_function_calling,
        }
    }
}

/// An upstream provider.
#[derive(Debug)]
pub struct Provider {
    pub id: String,
    pub name: String,
    pub provider_type: ProviderType,
    pub api_key: Option<String>,
    pub endpoint: Option<String>,
    pub tier: Tier,
    pub enabled: bool,
    /// Higher priority is tried first among providers of equal tier and cost.
    pub priority: u8,
    pub models: Vec<Model>,
}

/// A `Provider` as mathematical values.
pub struct ProviderView {
    pub id: Seq<char>,
    pub name: Seq<char>,
    pub provider_type: ProviderType,
    pub api_key: Option<Seq<char>>,
    pub endpoint: Option<Seq<char>>,
    pub tier: Tier,
    pub enabled: bool,
    pub priority: u8,
    pub models: Seq<ModelView>,
}

impl View for Provider {
    type V = ProviderView;

    open spec fn view(&self) -> ProviderView {
        ProviderView {
            id: self.id@,
            name: self.name@,
            provider_type: self.provider_type,
            api_key: text_of(self.api_key),
            endpoint: text_of(self.endpoint),
            tier: self.tier,
            enabled: self.enabled,
            priority: self.priority,
            models: model_views(self.models@),
        }
    }
}

/// Copies an optional string.
pub fn clone_opt_string(s: &Option<String>) -> (r: Option<String>)
    ensures
        r == *s,
{
    match s {
        Some(v) => Some(v.clone()),
        None => None,
    }
}

impl Clone for Provider {
    fn clone(&self) -> (r: Self)
        ensures
            r@ == self@,
    {
        let models = self.models.clone();
        assert(models@ =~= self.models@);
        Provider {
            id: self.id.clone(),
            name: self.name.clone(),
            provider_type: self.provider_type,
            api_key: clone_opt_string(&self.api_key),
            endpoint: clone_opt_string(&self.endpoint),
            tier: self.tier,
            enabled: self.enabled,
            priority: self.priority,
            models,
        }
    }
}

/// The model, and optionally the provider, that a profile assigns to one
/// complexity tier. An empty `provider_id` means any provider that serves the
/// model.
#[derive(Debug)]
pub struct ModelMapping {
    pub model_id: String,
    pub provider_id: String,
}

/// A `ModelMapping` as mathematical values.
pub struct ModelMappingView {
    pub model_id: Seq<char>,
    pub provider_id: Seq<char>,
}

impl View for ModelMapping {
    type V = ModelMappingView;

    open spec fn view(&self) -> ModelMappingView {
        ModelMappingView { model_id: self.model_id@, provider_id: self.provider_id@ }
    }
}

/// One entry of a mapping table as mathematical values.
pub struct MappingEntryView {
    pub key: Seq<char>,
    pub mapping: ModelMappingView,
}

/// A mapping table as mathematical values.
pub open spec fn table_view(entries: Seq<(String, ModelMapping)>) -> Seq<MappingEntryView> {
    Seq::new(
        entries.len(),
        |i: int| MappingEntryView { key: entries[i].0@, mapping: entries[i].1@ },
    )
}

impl Clone for ModelMapping {
    fn clone(&self) -> (r: Self)
        ensures
            r == *self,
    {
        ModelMapping { model_id: self.model_id.clone(), provider_id: self.provider_id.clone() }
    }
}

/// A named routing policy. Both mapping tables are association lists keyed by
/// the complexity tier's name; the first entry with a given key is the one
/// that counts.
#[derive(Debug, Clone)]
pub struct RoutingProfile {
    pub name: String,
    pub description: String,
    /// Ordered: an earlier tier is preferred.
    pub allowed_tiers: Vec<Tier>,
    pub model_mapping: Vec<(String, ModelMapping)>,
    /// Used in place of `model_mapping` for agentic requests, when not empty.
    pub agentic_model_mapping: Vec<(String, ModelMapping)>,
}

/// A `RoutingProfile` as mathematical values.
pub struct ProfileView {
    pub name: Seq<char>,
    pub description: Seq<char>,
    pub allowed_tiers: Seq<Tier>,
    pub model_mapping: Seq<MappingEntryView>,
    pub agentic_model_mapping: Seq<MappingEntryView>,
}

impl View for RoutingProfile {
    type V = ProfileView;

    open spec fn view(&self) -> ProfileView {
        ProfileView {
            name: self.name@,
            description: self.description@,
            allowed_tiers: self.allowed_tiers@,
            model_mapping: table_view(self.model_mapping@),
            agentic_model_mapping: table_view(self.agentic_model_mapping@),
        }
    }
}

/// The mapping stored under `key` from position `from` on, if any.
pub open spec fn find_mapping_from(
    entries: Seq<(String, ModelMapping)>,
    key: Seq<char>,
    from: int,
) -> Option<ModelMapping>
    decreases entries.len() - from,
{
    if from < 0 || from >= entries.len() {
        None
    } else if entries[from].0@ == key {
        Some(entries[from].1)
    } else {
        find_mapping_from(entries, key, from + 1)
    }
}

/// The mapping stored under `key`, if any.
pub open spec fn find_mapping(entries: Seq<(String, ModelMapping)>, key: Seq<char>) -> Option<
    ModelMapping,
> {
    find_mapping_from(entries, key, 0)
}

/// Looks a tier key up in a mapping table.
pub fn lookup_mapping<'a>(entries: &'a Vec<(String, ModelMapping)>, key: &str) -> (r: Option<
    &'a ModelMapping,
>)
    ensures
        match r {
            Some(m) => find_mapping(entries@, key@) == Some(*m),
            None => find_mapping(entries@, key@) is None,
        },
{
    let wanted = key.to_owned();
    let mut i: usize = 0;
    while i < entries.len()
        invariant
            i <= entries.len(),
            wanted@ == key@,
            find_mapping(entries@, key@) == find_mapping_from(entries@, key@, i as int),
        decreases entries.len() - i,
    {
        if entries[i].0 == wanted {
            return Some(&entries[i].1);
        }
        i += 1;
    }
    None
}


/// The whole configuration of the gateway.
#[derive(Debug, Clone)]
pub struct Config {
    pub providers: Vec<Provider>,
    pub profiles: Vec<RoutingProfile>,
    /// The name of the profile that governs requests that name none.
    pub active_profile: String,
    pub scorer: Option<ScorerConfig>,
    pub cache: Option<CacheConfig>,
    /// Treats every request as agentic.
    pub agentic_mode: bool,
    pub session: Option<SessionConfig>,
}

/// No two profiles have the same name.
pub open spec fn unique_profile_names(profiles: Seq<RoutingProfile>) -> bool {
    forall|i: int, j: int| 0 <= i < j < profiles.len() ==> profiles[i].name@ != profiles[j].name@
}

/// Some profile has the name `name`.
pub open spec fn names_a_profile(profiles: Seq<RoutingProfile>, name: Seq<char>) -> bool {
    exists|i: int| 0 <= i < profiles.len() && profiles[i].name@ == name
}

impl Config {
    /// Whether the configuration is consistent: its profile names are
    /// unique, and its active profile is one of them. The router serves an
    /// inconsistent configuration too: of profiles with one name the first
    /// counts, and an active profile that does not exist gives way to the
    /// first profile.
    pub open spec fn well_formed(&self) -> bool {
        &&& unique_profile_names(self.profiles@)
        &&& names_a_profile(self.profiles@, self.active_profile@)
    }

    /// Checks that the configuration is consistent.
    pub fn validate(&self) -> (r: bool)
        ensures
            r == self.well_formed(),
    {
        let mut active = false;
        let mut i: usize = 0;
        while i < self.profiles.len()
            invariant
                i <= self.profiles.len(),
                active == exists|k: int| 0 <= k < i && self.profiles@[k].name@ == self.active_profile@,
                forall|a: int, b: int| 0 <= a < b < i ==> self.profiles@[a].name@ != self.profiles@[b].name@,
            decreases self.profiles.len() - i,
        {
            let mut j: usize = 0;
            while j < i
                invariant
                    j <= i,
                    i < self.profiles.len(),
                    forall|a: int| 0 <= a < j ==> self.profiles@[a].name@ != self.profiles@[i as int].name@,
                decreases i - j,
            {
                if self.profiles[j].name == self.profiles[i].name {
                    return false;
                }
                j += 1;
            }
            if self.profiles[i].name == self.active_profile {
                active = true;
            }
            i += 1;
        }
        active
    }
}

/// A `Config` as mathematical values.
pub struct ConfigView {
    pub providers: Seq<ProviderView>,
    pub profiles: Seq<ProfileView>,
    pub active_profile: Seq<char>,
    pub scorer: Option<ScorerConfig>,
    pub cache: Option<CacheConfigView>,
    pub agentic_mode: bool,
    pub session: Option<SessionConfig>,
}

impl View for Config {
    type V = ConfigView;

    open spec fn view(&self) -> ConfigView {
        ConfigView {
            providers: Seq::new(self.providers@.len(), |i: int| self.providers@[i]@),
            profiles: Seq::new(self.profiles@.len(), |i: int| self.profiles@[i]@),
            active_profile: self.active_profile@,
            scorer: self.scorer,
            cache: match self.cache {
                Some(c) => Some(c@),
                None => None,
            },
            agentic_mode: self.agentic_mode,
            session: self.session,
        }
    }
}

/// The view of a configuration is made of the views of its parts: of each
/// provider and its models, of each profile and the entries of its tables.
pub proof fn lemma_config_view(c: Config)
    ensures
        c@.providers.len() == c.providers@.len(),
        c@.profiles.len() == c.profiles@.len(),
        forall|i: int|
            0 <= i < c.providers@.len() ==> {
                &&& c@.providers[i] == (#[trigger] c.providers@[i])@
                &&& c.providers@[i]@.models.len() == c.providers@[i].models@.len()
            },
        forall|i: int, k: int|
            0 <= i < c.providers@.len() && 0 <= k < c.providers@[i].models@.len()
                ==> c.providers@[i]@.models[k] == (#[trigger] c.providers@[i].models@[k])@,
        forall|i: int|
            0 <= i < c.profiles@.len() ==> {
                &&& c@.profiles[i] == (#[trigger] c.profiles@[i])@
                &&& c.profiles@[i]@.model_mapping.len() == c.profiles@[i].model_mapping@.len()
                &&& c.profiles@[i]@.agentic_model_mapping.len()
                    == c.profiles@[i].agentic_model_mapping@.len()
            },
        forall|i: int, k: int|
            0 <= i < c.profiles@.len() && 0 <= k < c.profiles@[i].model_mapping@.len() ==> {
                let entry = #[trigger] c.profiles@[i].model_mapping@[k];
                c.profiles@[i]@.model_mapping[k] == (MappingEntryView {
                    key: entry.0@,
                    mapping: entry.1@,
                })
            },
        forall|i: int, k: int|
            0 <= i < c.profiles@.len() && 0 <= k < c.profiles@[i].agentic_model_mapping@.len()
                ==> {
                let entry = #[trigger] c.profiles@[i].agentic_model_mapping@[k];
                c.profiles@[i]@.agentic_model_mapping[k] == (MappingEntryView {
                    key: entry.0@,
                    mapping: entry.1@,
                })
            },
{
}

/// A configuration that reads as the built-in one is consistent.
pub proof fn lemma_standard_well_formed(c: Config)
    requires
        c@ == Config::standard(),
    ensures
        c.well_formed(),
{
    lemma_config_view(c);
    reveal_strlit("auto");
    reveal_strlit("eco");
    reveal_strlit("premium");
    assert("auto"@.len() == 4);
    assert("eco"@.len() == 3);
    assert("premium"@.len() == 7);
    assert(c.profiles@[0]@ == Config::standard().profiles[0]);
    assert(c.profiles@[1]@ == Config::standard().profiles[1]);
    assert(c.profiles@[2]@ == Config::standard().profiles[2]);
    assert(c.profiles@[0].name@ == c.active_profile@);
}

/// A mapping to a model of any provider.
pub open spec fn any_provider_of(model_id: Seq<char>) -> ModelMappingView {
    ModelMappingView { model_id, provider_id: Seq::empty() }
}

/// The table that maps the four complexity tiers, in their order, to the
/// four models, each of any provider.
pub open spec fn tier_table_of(
    simple: Seq<char>,
    medium: Seq<char>,
    complex: Seq<char>,
    reasoning: Seq<char>,
) -> Seq<MappingEntryView> {
    seq![
        MappingEntryView { key: "simple"@, mapping: any_provider_of(simple) },
        MappingEntryView { key: "medium"@, mapping: any_provider_of(medium) },
        MappingEntryView { key: "complex"@, mapping: any_provider_of(complex) },
        MappingEntryView { key: "reasoning"@, mapping: any_provider_of(reasoning) },
    ]
}

/// The table that the built-in profiles use for agentic requests.
pub open spec fn agentic_table_of() -> Seq<MappingEntryView> {
    tier_table_of(
        "anthropic/haiku-4.5"@,
        "moonshot/kimi-k2.5"@,
        "anthropic/sonnet-4.6"@,
        "moonshot/kimi-k2.5"@,
    )
}

/// A built-in provider: enabled, without a key, of priority 1, with one
/// model.
pub open spec fn builtin_provider_of(
    id: Seq<char>,
    name: Seq<char>,
    kind: ProviderType,
    endpoint: Seq<char>,
    tier: Tier,
    model: ModelView,
) -> ProviderView {
    ProviderView {
        id,
        name,
        provider_type: kind,
        api_key: None,
        endpoint: Some(endpoint),
        tier,
        enabled: true,
        priority: 1,
        models: seq![model],
    }
}

impl Config {
    /// The configuration a gateway starts with: the providers OpenAI,
    /// Anthropic and DeepSeek with one model each, the profiles `auto`, `eco`
    /// and `premium` with a model for every complexity tier, `auto` active,
    /// and every optional subsystem left to its own default.
    pub open spec fn standard() -> ConfigView {
        ConfigView {
            providers: seq![
                builtin_provider_of(
                    "openai"@,
                    "OpenAI"@,
                    ProviderType::OpenAI,
                    "https://api.openai.com/v1/chat/completions"@,
                    Tier::Subscription,
                    ModelView {
                        id: "gpt-4-turbo"@,
                        name: "GPT-4 Turbo"@,
                        input_cost_per_1m: 10_000_000,
                        output_cost_per_1m: 30_000_000,
                        context_window: 128000,
                        supports_vision: true,
                        supports_function_calling: true,
                    },
                ),
                builtin_provider_of(
                    "anthropic"@,
                    "Anthropic"@,
                    ProviderType::Anthropic,
                    "https://api.anthropic.com/v1/messages"@,
                    Tier::Subscription,
                    ModelView {
                        id: "anthropic/opus-3"@,
                        name: "Anthropic Opus 3"@,
                        input_cost_per_1m: 15_000_000,
                        output_cost_per_1m: 75_000_000,
                        context_window: 200000,
                        supports_vision: true,
                        supports_function_calling: true,
                    },
                ),
                builtin_provider_of(
                    "deepseek"@,
                    "DeepSeek"@,
                    ProviderType::DeepSeek,
                    "https://api.deepseek.com/chat/completions"@,
                    Tier::Cheap,
                    ModelView {
                        id: "deepseek-chat"@,
                        name: "DeepSeek Chat"@,
                        input_cost_per_1m: 140_000,
                        output_cost_per_1m: 280_000,
                        context_window: 128000,
                        supports_vision: false,
                        supports_function_calling: true,
                    },
                ),
            ],
            profiles: seq![
                ProfileView {
                    name: "auto"@,
                    description: "Balanced cost and quality"@,
                    allowed_tiers: seq![
                        Tier::Subscription,
                        Tier::Cheap,
                        Tier::Free,
                        Tier::PayPerRequest,
                    ],
                    model_mapping: tier_table_of(
                        "moonshot/kimi-k2.5"@,
                        "xai/grok-code-fast-1"@,
                        "google/gemini-3-pro-preview"@,
                        "xai/grok-4-1-fast-reasoning"@,
                    ),
                    agentic_model_mapping: agentic_table_of(),
                },
                ProfileView {
                    name: "eco"@,
                    description: "Focus on low cost"@,
                    allowed_tiers: seq![Tier::Free, Tier::Cheap],
                    model_mapping: tier_table_of(
                        "nvidia/gpt-oss-120b"@,
                        "google/gemini-2.5-flash"@,
                        "google/gemini-2.5-flash"@,
                        "xai/grok-4-1-fast-reasoning"@,
                    ),
                    agentic_model_mapping: agentic_table_of(),
                },
                ProfileView {
                    name: "premium"@,
                    description: "Focus on best quality"@,
                    allowed_tiers: seq![Tier::Subscription, Tier::PayPerRequest],
                    model_mapping: tier_table_of(
                        "moonshot/kimi-k2.5"@,
                        "openai/gpt-5.2-codex"@,
                        "anthropic/opus-4"@,
                        "anthropic/sonnet-4"@,
                    ),
                    agentic_model_mapping: agentic_table_of(),
                },
            ],
            active_profile: "auto"@,
            scorer: None,
            cache: None,
            agentic_mode: false,
            session: None,
        }
    }
}

fn any_provider(model_id: &str) -> (r: ModelMapping)
    ensures
        r@ == any_provider_of(model_id@),
{
    ModelMapping { model_id: model_id.to_owned(), provider_id: String::new() }
}

fn tier_table(simple: &str, medium: &str, complex: &str, reasoning: &str) -> (r: Vec<
    (String, ModelMapping),
>)
    ensures
        table_view(r@) == tier_table_of(simple@, medium@, complex@, reasoning@),
{
    let r = vec![
        ("simple".to_owned(), any_provider(simple)),
        ("medium".to_owned(), any_provider(medium)),
        ("complex".to_owned(), any_provider(complex)),
        ("reasoning".to_owned(), any_provider(reasoning)),
    ];
    assert(table_view(r@) =~= tier_table_of(simple@, medium@, complex@, reasoning@));
    r
}

fn agentic_table() -> (r: Vec<(String, ModelMapping)>)
    ensures
        table_view(r@) == agentic_table_of(),
{
    tier_table(
        "anthropic/haiku-4.5",
        "moonshot/kimi-k2.5",
        "anthropic/sonnet-4.6",
        "moonshot/kimi-k2.5",
    )
}

fn builtin_provider(
    id: &str,
    name: &str,
    kind: ProviderType,
    endpoint: &str,
    tier: Tier,
    model: Model,
) -> (r: Provider)
    ensures
        r@ == builtin_provider_of(id@, name@, kind, endpoint@, tier, model@),
{
    let r = Provider {
        id: id.to_owned(),
        name: name.to_owned(),
        provider_type: kind,
        api_key: None,
        endpoint: Some(endpoint.to_owned()),
        tier,
        enabled: true,
        priority: 1,
        models: vec![model],
    };
    assert(model_views(r.models@) =~= seq![model@]);
    r
}

impl Default for Config {
    fn default() -> (r: Self)
        ensures
            r@ == Config::standard(),
            r.well_formed(),
    {
        proof {
            reveal_strlit("auto");
            reveal_strlit("eco");
            reveal_strlit("premium");
            assert("auto"@.len() == 4);
            assert("eco"@.len() == 3);
            assert("premium"@.len() == 7);
        }
        let openai = builtin_provider(
            "openai",
            "OpenAI",
            ProviderType::OpenAI,
            "https://api.openai.com/v1/chat/completions",
            Tier::Subscription,
            Model {
                id: "gpt-4-turbo".to_owned(),
                name: "GPT-4 Turbo".to_owned(),
                input_cost_per_1m: 10_000_000,
                output_cost_per_1m: 30_000_000,
                context_window: 128000,
                supports_vision: true,
                supports_function_calling: true,
            },
        );
        let anthropic = builtin_provider(
            "anthropic",
            "Anthropic",
            ProviderType::Anthropic,
            "https://api.anthropic.com/v1/messages",
            Tier::Subscription,
            Model {
                id: "anthropic/opus-3".to_owned(),
                name: "Anthropic Opus 3".to_owned(),
                input_cost_per_1m: 15_000_000,
                output_cost_per_1m: 75_000_000,
                context_window: 200000,
                supports_vision: true,
                supports_function_calling: true,
            },
        );
        let deepseek = builtin_provider(
            "deepseek",
            "DeepSeek",
            ProviderType::DeepSeek,
            "https://api.deepseek.com/chat/completions",
            Tier::Cheap,
            Model {
                id: "deepseek-chat".to_owned(),
                name: "DeepSeek Chat".to_owned(),
                input_cost_per_1m: 140_000,
                output_cost_per_1m: 280_000,
                context_window: 128000,
                supports_vision: false,
                supports_function_calling: true,
            },
        );
        let auto_tiers = vec![Tier::Subscription, Tier::Cheap, Tier::Free, Tier::PayPerRequest];
        let eco_tiers = vec![Tier::Free, Tier::Cheap];
        let premium_tiers = vec![Tier::Subscription, Tier::PayPerRequest];
        assert(auto_tiers@ =~= seq![
            Tier::Subscription,
            Tier::Cheap,
            Tier::Free,
            Tier::PayPerRequest,
        ]);
        assert(eco_tiers@ =~= seq![Tier::Free, Tier::Cheap]);
        assert(premium_tiers@ =~= seq![Tier::Subscription, Tier::PayPerRequest]);
        let auto = RoutingProfile {
            name: "auto".to_owned(),
            description: "Balanced cost and quality".to_owned(),
            allowed_tiers: auto_tiers,
            model_mapping: tier_table(
                "moonshot/kimi-k2.5",
                "xai/grok-code-fast-1",
                "google/gemini-3-pro-preview",
                "xai/grok-4-1-fast-reasoning",
            ),
            agentic_model_mapping: agentic_table(),
        };
        let eco = RoutingProfile {
            name: "eco".to_owned(),
            description: "Focus on low cost".to_owned(),
            allowed_tiers: eco_tiers,
            model_mapping: tier_table(
                "nvidia/gpt-oss-120b",
                "google/gemini-2.5-flash",
                "google/gemini-2.5-flash",
                "xai/grok-4-1-fast-reasoning",
            ),
            agentic_model_mapping: agentic_table(),
        };
        let premium = RoutingProfile {
            name: "premium".to_owned(),
            description: "Focus on best quality".to_owned(),
            allowed_tiers: premium_tiers,
            model_mapping: tier_table(
                "moonshot/kimi-k2.5",
                "openai/gpt-5.2-codex",
                "anthropic/opus-4",
                "anthropic/sonnet-4",
            ),
            agentic_model_mapping: agentic_table(),
        };
        let r = Config {
            providers: vec![openai, anthropic, deepseek],
            profiles: vec![auto, eco, premium],
            active_profile: "auto".to_owned(),
            scorer: None,
            cache: None,
            agentic_mode: false,
            session: None,
        };
        assert(r.profiles@[0].name@ == r.active_profile@);
        assert(r@.providers =~= Config::standard().providers);
        assert(r@.profiles =~= Config::standard().profiles);
        r
    }
}

} // verus!
