//! The chat-completion pipeline as a state machine. The gateway decides; the
//! caller reads and writes cache files and talks to the providers, and hands
//! back what came of it.
//!
//! A request is taken in with `ChatFlow::begin` and then goes through
//! `chat_completions`, step by step, until a step answers the client. Each
//! step names the one action that the caller is to perform next.

use vstd::prelude::*;
use vstd::slice::slice_to_vec;
use vstd::utf8::encode_utf8;
use crate::cache::{
    CacheConfig, CacheEntry, CacheLookup, cache_key, cache_key_of, entry_path, entry_path_of,
    get, lookup_of, put, unix_seconds, unix_seconds_of,
};
use crate::config::{Config, Provider, SessionConfig};
use crate::handlers::{
    ChatCompletionRequest, brings_tools, extract_session_id, has_tools, is_success,
    is_success_status, price_usage, session_id_of, usage_cost,
};
use crate::router::{
    Router, effective_model, opt_text, provider_views, route_of, router_profile,
};
use crate::scorer::{ComplexityTier, Scorer, ScorerConfig, ScoringView, score_of};
use crate::state::{
    AppState, RequestLog, RequestLogView, SessionEntry, fresh_id, is_pending, opt_view,
    ring_push, touch_in, visible_session,
};
use crate::text::{str_eq, string_views};

verus! {

/// What a provider answered: the HTTP status, the body in the shape that the
/// client is answered in, and the token counts that the provider reported.
#[derive(Debug)]
pub struct UpstreamReply {
    pub status: u16,
    pub body: Vec<u8>,
    pub input_tokens: Option<u64>,
    pub output_tokens: Option<u64>,
}

/// What came of the action that the last step asked for.
#[derive(Debug)]
pub enum ChatEvent {
    /// Nothing yet: the request is to begin.
    Begin,
    /// The entry that the cache file holds; none where there is no file or
    /// it cannot be read as an entry.
    CacheRead(Option<CacheEntry>),
    /// The provider's reply; none where it could not be reached.
    Upstream(Option<UpstreamReply>),
}

/// The action that the caller is to perform next.
#[derive(Debug)]
pub enum ChatAction {
    /// Read the cache file at `path`; go on with `ChatEvent::CacheRead`.
    ReadCache { path: String },
    /// Send the request to `provider` for `model`; go on with
    /// `ChatEvent::Upstream`.
    Forward { provider: Provider, model: String },
    /// Answer the client. The request is over.
    Respond { status: u16, body: Vec<u8> },
}

/// An entry to write to the cache.
#[derive(Debug)]
pub struct CacheWrite {
    pub path: String,
    pub entry: CacheEntry,
}

/// Where a request stands.
#[derive(Debug, Clone, Copy, PartialEq, Eq, Structural)]
pub enum ChatStage {
    /// Nothing was done yet.
    Start,
    /// The pinned provider of the request's session was asked.
    Pinned,
    /// The cache file is being read.
    Cache,
    /// A candidate provider was asked.
    Providers,
}

/// The complexity tier under which a request is routed, its raw score, and
/// whether it counts as agentic.
#[derive(Debug, Clone, Copy)]
pub struct Disposition {
    pub tier: Option<ComplexityTier>,
    pub score: Option<i64>,
    pub agentic: bool,
}

/// The scorer configuration in force.
pub open spec fn scorer_config_of(config: Config) -> ScorerConfig {
    match config.scorer {
        Some(c) => c,
        None => ScorerConfig::standard(),
    }
}

/// The session configuration in force.
pub open spec fn session_config_of(config: Config) -> SessionConfig {
    match config.session {
        Some(c) => c,
        None => SessionConfig { enabled: false, ttl_seconds: 3600 },
    }
}

/// Whether the cache is on.
pub open spec fn cache_enabled(config: Config) -> bool {
    config.cache is Some && config.cache->0.enabled
}

/// The cache directory in force.
pub open spec fn cache_dir_of(config: Config) -> Seq<char> {
    match config.cache {
        Some(c) => c.cache_dir@,
        None => "cache"@,
    }
}

/// The scoring of a request, where the scorer is on.
pub open spec fn planned_scoring(config: Config, request: ChatCompletionRequest) -> Option<
    ScoringView,
> {
    if scorer_config_of(config).enabled {
        Some(score_of(request.messages@, scorer_config_of(config)))
    } else {
        None
    }
}

/// How a request is disposed: scored where the scorer is on, and agentic if
/// it brings tools, if the configuration says so, or if its text holds two
/// or more agentic keywords.
pub open spec fn disposition_of(config: Config, request: ChatCompletionRequest) -> Disposition {
    match planned_scoring(config, request) {
        Some(s) => Disposition {
            tier: Some(s.tier),
            score: Some(s.raw_score as i64),
            agentic: brings_tools(request.extra@) || config.agentic_mode
                || s.agentic_keyword_count >= 2,
        },
        None => Disposition {
            tier: None,
            score: None,
            agentic: brings_tools(request.extra@) || config.agentic_mode,
        },
    }
}

/// The providers that a request is routed to.
pub open spec fn planned_route(config: Config, request: ChatCompletionRequest) -> Seq<Provider> {
    route_of(
        config,
        request.model@,
        disposition_of(config, request).tier,
        router_profile(request.model@),
        disposition_of(config, request).agentic,
    )
}

/// The effective model of a request.
pub open spec fn planned_model(config: Config, request: ChatCompletionRequest) -> Seq<char> {
    effective_model(
        config,
        request.model@,
        disposition_of(config, request).tier,
        router_profile(request.model@),
        disposition_of(config, request).agentic,
    )
}

/// The session id under which a request runs: none where sessions are off.
pub open spec fn request_session(
    config: Config,
    header: Option<Seq<char>>,
    request: ChatCompletionRequest,
) -> Option<Seq<char>> {
    if session_config_of(config).enabled {
        session_id_of(header, request)
    } else {
        None
    }
}

/// The position of the first enabled provider with id `id` at or after
/// `from`.
pub open spec fn enabled_provider_from(providers: Seq<Provider>, id: Seq<char>, from: int)
    -> Option<int>
    decreases providers.len() - from,
{
    if from < 0 || from >= providers.len() {
        None
    } else if providers[from].id@ == id && providers[from].enabled {
        Some(from)
    } else {
        enabled_provider_from(providers, id, from + 1)
    }
}

/// The pin that a request is bound by: the live entry of its session, if the
/// provider that it names is still there and enabled.
pub open spec fn binding_pin(
    sessions: Map<Seq<char>, SessionEntry>,
    config: Config,
    session: Option<Seq<char>>,
    now: i64,
) -> Option<SessionEntry> {
    match session {
        Some(sid) => match visible_session(
            sessions,
            sid,
            session_config_of(config).ttl_seconds,
            now,
        ) {
            Some(entry) => if enabled_provider_from(config.providers@, entry.provider_id@, 0)
                is Some {
                Some(entry)
            } else {
                None
            },
            None => None,
        },
        None => None,
    }
}

fn dispose(config: &Config, request: &ChatCompletionRequest) -> (d: Disposition)
    ensures
        d == disposition_of(*config, *request),
{
    let tools = has_tools(request);
    let scorer_config = match config.scorer {
        Some(c) => c,
        None => ScorerConfig::default(),
    };
    if scorer_config.enabled {
        let scoring = Scorer::score(request.messages.as_slice(), &scorer_config);
        Disposition {
            tier: Some(scoring.tier),
            score: Some(scoring.raw_score),
            agentic: tools || config.agentic_mode || scoring.agentic_keyword_count >= 2,
        }
    } else {
        Disposition { tier: None, score: None, agentic: tools || config.agentic_mode }
    }
}

fn find_enabled_provider<'a>(providers: &'a Vec<Provider>, id: &str) -> (r: Option<&'a Provider>)
    ensures
        match r {
            Some(p) => enabled_provider_from(providers@, id@, 0) is Some && *p
                == providers@[enabled_provider_from(providers@, id@, 0)->0],
            None => enabled_provider_from(providers@, id@, 0) is None,
        },
{
    let wanted = id.to_owned();
    let mut i: usize = 0;
    while i < providers.len()
        invariant
            i <= providers.len(),
            wanted@ == id@,
            enabled_provider_from(providers@, id@, 0) == enabled_provider_from(
                providers@,
                id@,
                i as int,
            ),
        decreases providers.len() - i,
    {
        if providers[i].id == wanted && providers[i].enabled {
            return Some(&providers[i]);
        }
        i += 1;
    }
    None
}


/// What the client is told when no provider can serve the request.
pub const NO_PROVIDER_BODY: &'static str = "No provider found for model";

/// What the client is told when every candidate failed.
pub const ALL_FAILED_BODY: &'static str = "All providers failed";

/// The names of a list of providers.
pub open spec fn candidate_names(candidates: Seq<Provider>) -> Seq<Seq<char>> {
    Seq::new(candidates.len(), |i: int| candidates[i].name@)
}

/// A log entry with the usage that a provider reported and its price.
pub open spec fn with_usage(
    log: RequestLogView,
    input_tokens: Option<u64>,
    output_tokens: Option<u64>,
    cost: Option<u64>,
) -> RequestLogView {
    RequestLogView { input_tokens, output_tokens, estimated_cost: cost, ..log }
}

/// A log entry closed as a success.
pub open spec fn succeeded(
    log: RequestLogView,
    provider: Seq<char>,
    code: u16,
    elapsed_ms: u64,
    cache_status: Seq<char>,
) -> RequestLogView {
    RequestLogView {
        provider: Some(provider),
        status: "success"@,
        status_code: Some(code),
        duration_ms: elapsed_ms,
        cache_status: Some(cache_status),
        ..log
    }
}

/// A log entry closed for want of a provider.
pub open spec fn unrouted(log: RequestLogView, elapsed_ms: u64) -> RequestLogView {
    RequestLogView {
        status: "no_provider"@,
        error_message: Some(NO_PROVIDER_BODY@),
        duration_ms: elapsed_ms,
        ..log
    }
}

/// A log entry closed after every candidate failed.
pub open spec fn failed(log: RequestLogView, elapsed_ms: u64) -> RequestLogView {
    RequestLogView {
        status: "error"@,
        error_message: Some(ALL_FAILED_BODY@),
        duration_ms: elapsed_ms,
        ..log
    }
}

/// A log entry with the disposition of the request: its tier and score where
/// it was scored, the agentic flag, and the effective model where it differs
/// from the requested one.
pub open spec fn routed(
    log: RequestLogView,
    disposition: Disposition,
    effective: Seq<char>,
    requested: Seq<char>,
) -> RequestLogView {
    RequestLogView {
        complexity_tier: match disposition.tier {
            Some(t) => Some(t.label()),
            None => None,
        },
        complexity_score: disposition.score,
        agentic_mode: Some(disposition.agentic),
        effective_model: if effective != requested {
            Some(effective)
        } else {
            log.effective_model
        },
        ..log
    }
}

/// A log entry with one more provider tried.
pub open spec fn tried(log: RequestLogView, name: Seq<char>) -> RequestLogView {
    RequestLogView { providers_tried: log.providers_tried.push(name), ..log }
}

fn record_usage(
    log: RequestLog,
    input_tokens: Option<u64>,
    output_tokens: Option<u64>,
    cost: Option<u64>,
) -> (r: RequestLog)
    ensures
        r@ == with_usage(log@, input_tokens, output_tokens, cost),
{
    let mut log = log;
    log.input_tokens = input_tokens;
    log.output_tokens = output_tokens;
    log.estimated_cost = cost;
    log
}

fn close_success(log: RequestLog, provider: String, code: u16, elapsed_ms: u64, cache_status: &str)
    -> (r: RequestLog)
    ensures
        r@ == succeeded(log@, provider@, code, elapsed_ms, cache_status@),
{
    let mut log = log;
    log.provider = Some(provider);
    log.status = "success".to_owned();
    log.status_code = Some(code);
    log.duration_ms = elapsed_ms;
    log.cache_status = Some(cache_status.to_owned());
    log
}

fn close_unrouted(log: RequestLog, elapsed_ms: u64) -> (r: RequestLog)
    ensures
        r@ == unrouted(log@, elapsed_ms),
{
    let mut log = log;
    log.status = "no_provider".to_owned();
    log.error_message = Some(NO_PROVIDER_BODY.to_owned());
    log.duration_ms = elapsed_ms;
    log
}

fn close_failed(log: RequestLog, elapsed_ms: u64) -> (r: RequestLog)
    ensures
        r@ == failed(log@, elapsed_ms),
{
    let mut log = log;
    log.status = "error".to_owned();
    log.error_message = Some(ALL_FAILED_BODY.to_owned());
    log.duration_ms = elapsed_ms;
    log
}

fn record_disposition(log: RequestLog, disposition: Disposition, effective: &str, requested: &str)
    -> (r: RequestLog)
    ensures
        r@ == routed(log@, disposition, effective@, requested@),
{
    let mut log = log;
    log.complexity_tier = match disposition.tier {
        Some(t) => Some(t.name().to_owned()),
        None => None,
    };
    log.complexity_score = disposition.score;
    log.agentic_mode = Some(disposition.agentic);
    if !str_eq(effective, requested) {
        log.effective_model = Some(effective.to_owned());
    }
    log
}

fn record_try(log: RequestLog, name: &str) -> (r: RequestLog)
    ensures
        r@ == tried(log@, name@),
{
    let mut log = log;
    let ghost before = string_views(log.providers_tried@);
    log.providers_tried.push(name.to_owned());
    assert(string_views(log.providers_tried@) =~= before.push(name@));
    log
}

fn text_bytes(text: &str) -> (r: Vec<u8>)
    ensures
        r@ == encode_utf8(text@),
{
    slice_to_vec(text.as_bytes())
}


/// The providers that were asked so far, by name: none before the candidates
/// are tried, then the candidates up to the one that was asked last.
pub open spec fn tried_names(stage: ChatStage, candidates: Seq<Provider>, position: int) -> Seq<
    Seq<char>,
> {
    if stage == ChatStage::Providers {
        candidate_names(candidates).take(position + 1)
    } else {
        Seq::empty()
    }
}

/// A request under way.
pub struct ChatFlow {
    stage: ChatStage,
    log: RequestLog,
    requested_model: String,
    session: Option<String>,
    cache: CacheConfig,
    cache_path: String,
    disposition: Disposition,
    target_model: String,
    candidates: Vec<Provider>,
    position: usize,
    pinned_provider: Option<Provider>,
    pinned_model: String,
}

impl ChatFlow {
    #[verifier::type_invariant]
    spec fn well_formed(&self) -> bool {
        &&& self.stage == ChatStage::Pinned ==> self.pinned_provider is Some
        &&& self.stage == ChatStage::Providers ==> self.position < self.candidates@.len()
        &&& string_views(self.log.providers_tried@) == tried_names(
            self.stage,
            self.candidates@,
            self.position as int,
        )
    }

    /// Where the request stands.
    pub closed spec fn stage(&self) -> ChatStage {
        self.stage
    }

    /// The log entry of the request as it stands.
    pub closed spec fn log(&self) -> RequestLog {
        self.log
    }

    /// The model that the client asked for.
    pub closed spec fn requested_model(&self) -> Seq<char> {
        self.requested_model@
    }

    /// The session id under which the request runs.
    pub closed spec fn session(&self) -> Option<Seq<char>> {
        opt_view(self.session)
    }

    /// The cache configuration under which the request runs.
    pub closed spec fn cache(&self) -> CacheConfig {
        self.cache
    }

    /// The path of the cache file of the request.
    pub closed spec fn cache_path(&self) -> Seq<char> {
        self.cache_path@
    }

    /// How the request is disposed.
    pub closed spec fn disposition(&self) -> Disposition {
        self.disposition
    }

    /// The effective model of the request.
    pub closed spec fn target_model(&self) -> Seq<char> {
        self.target_model@
    }

    /// The candidate providers, in the order in which they are tried.
    pub closed spec fn candidates(&self) -> Seq<Provider> {
        self.candidates@
    }

    /// The position of the candidate that was asked last.
    pub closed spec fn position(&self) -> int {
        self.position as int
    }

    /// The provider that the request's session is pinned to.
    pub closed spec fn pinned_provider(&self) -> Option<Provider> {
        self.pinned_provider
    }

    /// The model that the request's session is pinned to.
    pub closed spec fn pinned_model(&self) -> Seq<char> {
        self.pinned_model@
    }
}

/// Whether two flows are of one request: they differ at most in stage,
/// position and log entry.
pub open spec fn same_request(a: ChatFlow, b: ChatFlow) -> bool {
    &&& a.requested_model() == b.requested_model()
    &&& a.session() == b.session()
    &&& a.cache() == b.cache()
    &&& a.cache_path() == b.cache_path()
    &&& a.disposition() == b.disposition()
    &&& a.target_model() == b.target_model()
    &&& a.candidates() == b.candidates()
    &&& a.pinned_provider() == b.pinned_provider()
    &&& a.pinned_model() == b.pinned_model()
}

/// The log of a flow lists, in order, the providers that were asked so far.
pub open spec fn tried_in_order(flow: ChatFlow) -> bool {
    flow.log()@.providers_tried == tried_names(flow.stage(), flow.candidates(), flow.position())
}

/// What a step hands to the caller.
pub struct ChatStep {
    /// The request as it stands; none once the client is answered.
    pub flow: Option<ChatFlow>,
    /// What the caller is to do next.
    pub action: ChatAction,
    /// A stale cache file to remove, whether or not that succeeds.
    pub remove_cache_file: Option<String>,
    /// An entry to write to the cache, whether or not that succeeds.
    pub write_cache: Option<CacheWrite>,
}

/// The step answers the client.
pub open spec fn answers(step: ChatStep, status: u16, body: Seq<u8>) -> bool {
    &&& step.flow is None
    &&& step.action matches ChatAction::Respond { status: s, body: b } && s == status && b@ == body
}

/// The step sends the request to a provider.
pub open spec fn forwards(step: ChatStep, provider: Provider, model: Seq<char>) -> bool {
    &&& step.flow is Some
    &&& step.action matches ChatAction::Forward { provider: p, model: m } && p@ == provider@ && m@
        == model
    &&& step.write_cache is None
}

/// The step has the cache file read.
pub open spec fn reads_cache(step: ChatStep, path: Seq<char>) -> bool {
    &&& step.flow is Some
    &&& step.action matches ChatAction::ReadCache { path: p } && p@ == path
    &&& step.remove_cache_file is None
    &&& step.write_cache is None
}

/// One entry was appended to the log, and it reads `entry`.
pub open spec fn logged(before: Seq<RequestLog>, after: Seq<RequestLog>, entry: RequestLogView)
    -> bool {
    &&& after.len() > 0
    &&& after == ring_push(before, after.last())
    &&& after.last()@ == entry
}

/// The request goes on in a new stage, with a new log entry.
pub open spec fn goes_on(
    flow: ChatFlow,
    step: ChatStep,
    stage: ChatStage,
    position: int,
    log: RequestLogView,
) -> bool {
    &&& step.flow is Some
    &&& same_request(flow, step.flow->0)
    &&& step.flow->0.stage() == stage
    &&& stage == ChatStage::Providers ==> step.flow->0.position() == position
    &&& step.flow->0.log()@ == log
    &&& tried_in_order(step.flow->0)
}

/// What routing comes to: without a candidate, the client is told so and
/// the request is logged as unroutable; else the first candidate is asked.
pub open spec fn routing_outcome(
    flow: ChatFlow,
    elapsed_ms: u64,
    logs_before: Seq<RequestLog>,
    logs_after: Seq<RequestLog>,
    step: ChatStep,
) -> bool {
    let entry = routed(
        flow.log()@,
        flow.disposition(),
        flow.target_model(),
        flow.requested_model(),
    );
    if flow.candidates().len() == 0 {
        &&& answers(step, 400, encode_utf8(NO_PROVIDER_BODY@))
        &&& logged(logs_before, logs_after, unrouted(entry, elapsed_ms))
        &&& step.write_cache is None
    } else {
        &&& forwards(step, flow.candidates()[0], flow.target_model())
        &&& goes_on(flow, step, ChatStage::Providers, 0, tried(entry, flow.candidates()[0].name@))
        &&& logs_after == logs_before
    }
}

/// What happens once no pin binds the request: with the cache on, its file
/// is read; else the request is routed.
pub open spec fn cache_or_route(
    flow: ChatFlow,
    elapsed_ms: u64,
    logs_before: Seq<RequestLog>,
    logs_after: Seq<RequestLog>,
    step: ChatStep,
) -> bool {
    if flow.cache().enabled {
        &&& reads_cache(step, flow.cache_path())
        &&& goes_on(flow, step, ChatStage::Cache, 0, flow.log()@)
        &&& logs_after == logs_before
    } else {
        &&& routing_outcome(flow, elapsed_ms, logs_before, logs_after, step)
        &&& step.remove_cache_file is None
    }
}

/// The log entry of a request that is bound by a pin.
pub open spec fn pinned_log(log: RequestLogView, model: Seq<char>) -> RequestLogView {
    RequestLogView { session_pinned: Some(true), effective_model: Some(model), ..log }
}

/// The reply of a provider that answered with success.
pub open spec fn success_of(event: ChatEvent) -> Option<UpstreamReply> {
    match event {
        ChatEvent::Upstream(Some(reply)) => if is_success(reply.status) {
            Some(reply)
        } else {
            None
        },
        _ => None,
    }
}

/// What the cache file held, as the event reports it.
pub open spec fn stored_of(event: ChatEvent) -> Option<CacheEntry> {
    match event {
        ChatEvent::CacheRead(stored) => stored,
        _ => None,
    }
}

/// The log entry of a request that a provider answered with success.
pub open spec fn served_log(
    log: RequestLogView,
    provider: Provider,
    model: Seq<char>,
    reply: UpstreamReply,
    elapsed_ms: u64,
    cache_status: Seq<char>,
) -> RequestLogView {
    succeeded(
        with_usage(
            log,
            reply.input_tokens,
            reply.output_tokens,
            usage_cost(provider, model, reply.input_tokens, reply.output_tokens),
        ),
        provider.name@,
        reply.status,
        elapsed_ms,
        cache_status,
    )
}

/// What a step does, from where the request stands and what came of the
/// last action.
///
/// At the start, a request that is bound by a pin is sent to the pinned
/// provider for the pinned model, and its session is touched; any other goes
/// to the cache or to routing. A success of the pinned provider answers the
/// client, with cache status `skip`; a failure sends the request on to the
/// cache or to routing. A fresh cache entry answers the client with status
/// 200 and the stored bytes, with provider `cache` and cache status `hit`; a
/// stale one is removed and the request routed; without one the request is
/// routed. A success of a candidate answers the client with cache status
/// `miss`, stores the response where the cache is on and pins the session
/// where the request has one; a failure sends the request to the next
/// candidate, and after the last one the client is told that all failed.
pub open spec fn transition(
    flow: ChatFlow,
    event: ChatEvent,
    elapsed_ms: u64,
    now: i64,
    logs_before: Seq<RequestLog>,
    logs_after: Seq<RequestLog>,
    sessions_before: Map<Seq<char>, SessionEntry>,
    sessions_after: Map<Seq<char>, SessionEntry>,
    step: ChatStep,
) -> bool {
    match flow.stage() {
        ChatStage::Start => {
            if flow.pinned_provider() is Some {
                &&& forwards(step, flow.pinned_provider()->0, flow.pinned_model())
                &&& step.remove_cache_file is None
                &&& goes_on(
                    flow,
                    step,
                    ChatStage::Pinned,
                    0,
                    pinned_log(flow.log()@, flow.pinned_model()),
                )
                &&& logs_after == logs_before
                &&& sessions_after == match flow.session() {
                    Some(sid) => touch_in(sessions_before, sid, now),
                    None => sessions_before,
                }
            } else {
                &&& cache_or_route(flow, elapsed_ms, logs_before, logs_after, step)
                &&& sessions_after == sessions_before
            }
        },
        ChatStage::Pinned => {
            match success_of(event) {
                Some(reply) => {
                    &&& answers(step, reply.status, reply.body@)
                    &&& logged(
                        logs_before,
                        logs_after,
                        served_log(
                            flow.log()@,
                            flow.pinned_provider()->0,
                            flow.pinned_model(),
                            reply,
                            elapsed_ms,
                            "skip"@,
                        ),
                    )
                    &&& step.remove_cache_file is None
                    &&& step.write_cache is None
                    &&& sessions_after == sessions_before
                },
                None => {
                    &&& cache_or_route(flow, elapsed_ms, logs_before, logs_after, step)
                    &&& sessions_after == sessions_before
                },
            }
        },
        ChatStage::Cache => {
            &&& sessions_after == sessions_before
            &&& match lookup_of(flow.cache(), stored_of(event), unix_seconds_of(now)) {
                CacheLookup::Hit(body) => {
                    &&& answers(step, 200, body@)
                    &&& logged(
                        logs_before,
                        logs_after,
                        succeeded(flow.log()@, "cache"@, 200, elapsed_ms, "hit"@),
                    )
                    &&& step.remove_cache_file is None
                    &&& step.write_cache is None
                },
                CacheLookup::Expired => {
                    &&& routing_outcome(flow, elapsed_ms, logs_before, logs_after, step)
                    &&& step.remove_cache_file is Some
                    &&& step.remove_cache_file->0@ == flow.cache_path()
                },
                CacheLookup::Miss => {
                    &&& routing_outcome(flow, elapsed_ms, logs_before, logs_after, step)
                    &&& step.remove_cache_file is None
                },
            }
        },
        ChatStage::Providers => {
            let asked = flow.candidates()[flow.position()];
            match success_of(event) {
                Some(reply) => {
                    &&& answers(step, reply.status, reply.body@)
                    &&& logged(
                        logs_before,
                        logs_after,
                        served_log(
                            flow.log()@,
                            asked,
                            flow.target_model(),
                            reply,
                            elapsed_ms,
                            "miss"@,
                        ),
                    )
                    &&& step.remove_cache_file is None
                    &&& if flow.cache().enabled {
                        &&& step.write_cache is Some
                        &&& step.write_cache->0.path@ == flow.cache_path()
                        &&& step.write_cache->0.entry.cached_at == unix_seconds_of(now)
                        &&& step.write_cache->0.entry.model@ == flow.requested_model()
                        &&& step.write_cache->0.entry.response_body@ == reply.body@
                    } else {
                        step.write_cache is None
                    }
                    &&& match flow.session() {
                        Some(sid) => {
                            &&& sessions_after.contains_key(sid)
                            &&& sessions_after == sessions_before.insert(sid, sessions_after[sid])
                            &&& sessions_after[sid].provider_id@ == asked.id@
                            &&& sessions_after[sid].model_id@ == flow.target_model()
                            &&& sessions_after[sid].last_active == now
                        },
                        None => sessions_after == sessions_before,
                    }
                },
                None => {
                    &&& sessions_after == sessions_before
                    &&& step.remove_cache_file is None
                    &&& if flow.position() + 1 < flow.candidates().len() {
                        let next = flow.candidates()[flow.position() + 1];
                        &&& forwards(step, next, flow.target_model())
                        &&& goes_on(
                            flow,
                            step,
                            ChatStage::Providers,
                            flow.position() + 1,
                            tried(flow.log()@, next.name@),
                        )
                        &&& logs_after == logs_before
                    } else {
                        &&& answers(step, 503, encode_utf8(ALL_FAILED_BODY@))
                        &&& logged(logs_before, logs_after, failed(flow.log()@, elapsed_ms))
                        &&& step.write_cache is None
                    }
                },
            }
        },
    }
}


fn route_now(state: &mut AppState, flow: ChatFlow, elapsed_ms: u64, remove: Option<String>) -> (step:
    ChatStep)
    requires
        flow.stage() != ChatStage::Providers,
    ensures
        routing_outcome(
            flow,
            elapsed_ms,
            old(state).log_entries(),
            final(state).log_entries(),
            step,
        ),
        step.remove_cache_file == remove,
        final(state).sessions() == old(state).sessions(),
        final(state).current_config() == old(state).current_config(),
        final(state).persisted_at() == old(state).persisted_at(),
{
    proof {
        use_type_invariant(&flow);
    }
    let ChatFlow {
        stage: _,
        log,
        requested_model,
        session,
        cache,
        cache_path,
        disposition,
        target_model,
        candidates,
        position: _,
        pinned_provider,
        pinned_model,
    } = flow;
    let log = record_disposition(
        log,
        disposition,
        target_model.as_str(),
        requested_model.as_str(),
    );
    if candidates.len() == 0 {
        let log = close_unrouted(log, elapsed_ms);
        state.add_log(log);
        ChatStep {
            flow: None,
            action: ChatAction::Respond { status: 400, body: text_bytes(NO_PROVIDER_BODY) },
            remove_cache_file: remove,
            write_cache: None,
        }
    } else {
        let log = record_try(log, candidates[0].name.as_str());
        let provider = candidates[0].clone();
        let model = target_model.clone();
        assert(string_views(log.providers_tried@) =~= candidate_names(candidates@).take(1));
        let next = ChatFlow {
            stage: ChatStage::Providers,
            log,
            requested_model,
            session,
            cache,
            cache_path,
            disposition,
            target_model,
            candidates,
            position: 0,
            pinned_provider,
            pinned_model,
        };
        ChatStep {
            flow: Some(next),
            action: ChatAction::Forward { provider, model },
            remove_cache_file: remove,
            write_cache: None,
        }
    }
}

fn cache_or_route_now(state: &mut AppState, flow: ChatFlow, elapsed_ms: u64) -> (step: ChatStep)
    requires
        flow.stage() != ChatStage::Providers,
    ensures
        cache_or_route(
            flow,
            elapsed_ms,
            old(state).log_entries(),
            final(state).log_entries(),
            step,
        ),
        final(state).sessions() == old(state).sessions(),
        final(state).current_config() == old(state).current_config(),
        final(state).persisted_at() == old(state).persisted_at(),
{
    proof {
        use_type_invariant(&flow);
    }
    if flow.cache.enabled {
        let ChatFlow {
            stage: _,
            log,
            requested_model,
            session,
            cache,
            cache_path,
            disposition,
            target_model,
            candidates,
            position,
            pinned_provider,
            pinned_model,
        } = flow;
        let path = cache_path.clone();
        let next = ChatFlow {
            stage: ChatStage::Cache,
            log,
            requested_model,
            session,
            cache,
            cache_path,
            disposition,
            target_model,
            candidates,
            position,
            pinned_provider,
            pinned_model,
        };
        ChatStep {
            flow: Some(next),
            action: ChatAction::ReadCache { path },
            remove_cache_file: None,
            write_cache: None,
        }
    } else {
        route_now(state, flow, elapsed_ms, None)
    }
}

fn answer_served(
    state: &mut AppState,
    log: RequestLog,
    provider: &Provider,
    model: &str,
    reply: UpstreamReply,
    elapsed_ms: u64,
    cache_status: &str,
) -> (step: ChatStep)
    ensures
        answers(step, reply.status, reply.body@),
        logged(
            old(state).log_entries(),
            final(state).log_entries(),
            served_log(log@, *provider, model@, reply, elapsed_ms, cache_status@),
        ),
        step.remove_cache_file is None,
        step.write_cache is None,
        final(state).sessions() == old(state).sessions(),
        final(state).current_config() == old(state).current_config(),
        final(state).persisted_at() == old(state).persisted_at(),
{
    let cost = price_usage(provider, model, reply.input_tokens, reply.output_tokens);
    let log = record_usage(log, reply.input_tokens, reply.output_tokens, cost);
    let log = close_success(log, provider.name.clone(), reply.status, elapsed_ms, cache_status);
    state.add_log(log);
    ChatStep {
        flow: None,
        action: ChatAction::Respond { status: reply.status, body: reply.body },
        remove_cache_file: None,
        write_cache: None,
    }
}

fn start(state: &mut AppState, flow: ChatFlow, elapsed_ms: u64, now: i64) -> (step: ChatStep)
    requires
        flow.stage() == ChatStage::Start,
    ensures
        transition(
            flow,
            ChatEvent::Begin,
            elapsed_ms,
            now,
            old(state).log_entries(),
            final(state).log_entries(),
            old(state).sessions(),
            final(state).sessions(),
            step,
        ),
        final(state).current_config() == old(state).current_config(),
        final(state).persisted_at() == old(state).persisted_at(),
{
    proof {
        use_type_invariant(&flow);
    }
    if flow.pinned_provider.is_some() {
        let ChatFlow {
            stage: _,
            log,
            requested_model,
            session,
            cache,
            cache_path,
            disposition,
            target_model,
            candidates,
            position,
            pinned_provider,
            pinned_model,
        } = flow;
        match &session {
            Some(sid) => {
                state.touch_session_at(sid.as_str(), now);
            },
            None => {},
        }
        let mut log = log;
        log.session_pinned = Some(true);
        log.effective_model = Some(pinned_model.clone());
        let provider = match &pinned_provider {
            Some(p) => p.clone(),
            None => vstd::pervasive::unreached(),
        };
        let model = pinned_model.clone();
        let next = ChatFlow {
            stage: ChatStage::Pinned,
            log,
            requested_model,
            session,
            cache,
            cache_path,
            disposition,
            target_model,
            candidates,
            position,
            pinned_provider,
            pinned_model,
        };
        ChatStep {
            flow: Some(next),
            action: ChatAction::Forward { provider, model },
            remove_cache_file: None,
            write_cache: None,
        }
    } else {
        cache_or_route_now(state, flow, elapsed_ms)
    }
}


fn after_pinned(state: &mut AppState, flow: ChatFlow, event: ChatEvent, elapsed_ms: u64, now: i64)
    -> (step: ChatStep)
    requires
        flow.stage() == ChatStage::Pinned,
    ensures
        transition(
            flow,
            event,
            elapsed_ms,
            now,
            old(state).log_entries(),
            final(state).log_entries(),
            old(state).sessions(),
            final(state).sessions(),
            step,
        ),
        final(state).current_config() == old(state).current_config(),
        final(state).persisted_at() == old(state).persisted_at(),
{
    proof {
        use_type_invariant(&flow);
    }
    match event {
        ChatEvent::Upstream(Some(reply)) => {
            if is_success_status(reply.status) {
                let ChatFlow {
                    stage: _,
                    log,
                    requested_model: _,
                    session: _,
                    cache: _,
                    cache_path: _,
                    disposition: _,
                    target_model: _,
                    candidates: _,
                    position: _,
                    pinned_provider,
                    pinned_model,
                } = flow;
                match &pinned_provider {
                    Some(provider) => answer_served(
                        state,
                        log,
                        provider,
                        pinned_model.as_str(),
                        reply,
                        elapsed_ms,
                        "skip",
                    ),
                    None => vstd::pervasive::unreached(),
                }
            } else {
                cache_or_route_now(state, flow, elapsed_ms)
            }
        },
        _ => cache_or_route_now(state, flow, elapsed_ms),
    }
}

fn after_cache(state: &mut AppState, flow: ChatFlow, event: ChatEvent, elapsed_ms: u64, now: i64)
    -> (step: ChatStep)
    requires
        flow.stage() == ChatStage::Cache,
    ensures
        transition(
            flow,
            event,
            elapsed_ms,
            now,
            old(state).log_entries(),
            final(state).log_entries(),
            old(state).sessions(),
            final(state).sessions(),
            step,
        ),
        final(state).current_config() == old(state).current_config(),
        final(state).persisted_at() == old(state).persisted_at(),
{
    proof {
        use_type_invariant(&flow);
    }
    let stored = match event {
        ChatEvent::CacheRead(stored) => stored,
        _ => None,
    };
    match get(&flow.cache, stored, unix_seconds(now)) {
        CacheLookup::Hit(body) => {
            let ChatFlow {
                stage: _,
                log,
                requested_model: _,
                session: _,
                cache: _,
                cache_path: _,
                disposition: _,
                target_model: _,
                candidates: _,
                position: _,
                pinned_provider: _,
                pinned_model: _,
            } = flow;
            let log = close_success(log, "cache".to_owned(), 200, elapsed_ms, "hit");
            state.add_log(log);
            ChatStep {
                flow: None,
                action: ChatAction::Respond { status: 200, body },
                remove_cache_file: None,
                write_cache: None,
            }
        },
        CacheLookup::Expired => {
            let path = flow.cache_path.clone();
            route_now(state, flow, elapsed_ms, Some(path))
        },
        CacheLookup::Miss => route_now(state, flow, elapsed_ms, None),
    }
}

fn after_provider(
    state: &mut AppState,
    flow: ChatFlow,
    event: ChatEvent,
    elapsed_ms: u64,
    now: i64,
) -> (step: ChatStep)
    requires
        flow.stage() == ChatStage::Providers,
    ensures
        transition(
            flow,
            event,
            elapsed_ms,
            now,
            old(state).log_entries(),
            final(state).log_entries(),
            old(state).sessions(),
            final(state).sessions(),
            step,
        ),
        final(state).current_config() == old(state).current_config(),
        final(state).persisted_at() == old(state).persisted_at(),
{
    proof {
        use_type_invariant(&flow);
    }
    let ChatFlow {
        stage: _,
        log,
        requested_model,
        session,
        cache,
        cache_path,
        disposition,
        target_model,
        candidates,
        position,
        pinned_provider,
        pinned_model,
    } = flow;
    let served = match event {
        ChatEvent::Upstream(Some(reply)) => if is_success_status(reply.status) {
            Some(reply)
        } else {
            None
        },
        _ => None,
    };
    match served {
        Some(reply) => {
            let asked = &candidates[position];
            let cost = price_usage(
                asked,
                target_model.as_str(),
                reply.input_tokens,
                reply.output_tokens,
            );
            let log = record_usage(log, reply.input_tokens, reply.output_tokens, cost);
            let log = close_success(log, asked.name.clone(), reply.status, elapsed_ms, "miss");
            let write_cache = match put(
                &cache,
                requested_model.as_str(),
                reply.body.as_slice(),
                unix_seconds(now),
            ) {
                Some(entry) => Some(CacheWrite { path: cache_path, entry }),
                None => None,
            };
            match session {
                Some(sid) => {
                    state.set_session_at(sid, asked.id.clone(), target_model.clone(), now);
                },
                None => {},
            }
            state.add_log(log);
            ChatStep {
                flow: None,
                action: ChatAction::Respond { status: reply.status, body: reply.body },
                remove_cache_file: None,
                write_cache,
            }
        },
        None => {
            assert(position < candidates@.len());
            if position < candidates.len() - 1 {
                let upcoming = position + 1;
                let log = record_try(log, candidates[upcoming].name.as_str());
                let provider = candidates[upcoming].clone();
                let model = target_model.clone();
                assert(string_views(log.providers_tried@) =~= candidate_names(candidates@).take(
                    upcoming + 1,
                ));
                let next = ChatFlow {
                    stage: ChatStage::Providers,
                    log,
                    requested_model,
                    session,
                    cache,
                    cache_path,
                    disposition,
                    target_model,
                    candidates,
                    position: upcoming,
                    pinned_provider,
                    pinned_model,
                };
                ChatStep {
                    flow: Some(next),
                    action: ChatAction::Forward { provider, model },
                    remove_cache_file: None,
                    write_cache: None,
                }
            } else {
                let log = close_failed(log, elapsed_ms);
                state.add_log(log);
                ChatStep {
                    flow: None,
                    action: ChatAction::Respond { status: 503, body: text_bytes(ALL_FAILED_BODY) },
                    remove_cache_file: None,
                    write_cache: None,
                }
            }
        },
    }
}

/// Takes one step of a request: decides, from where the request stands and
/// what came of the last action, what is recorded and what the caller is to
/// do next.
pub fn chat_completions(
    state: &mut AppState,
    flow: ChatFlow,
    event: ChatEvent,
    elapsed_ms: u64,
    now: i64,
) -> (step: ChatStep)
    ensures
        transition(
            flow,
            event,
            elapsed_ms,
            now,
            old(state).log_entries(),
            final(state).log_entries(),
            old(state).sessions(),
            final(state).sessions(),
            step,
        ),
        final(state).current_config() == old(state).current_config(),
        final(state).persisted_at() == old(state).persisted_at(),
{
    proof {
        use_type_invariant(&flow);
    }
    match flow.stage {
        ChatStage::Start => start(state, flow, elapsed_ms, now),
        ChatStage::Pinned => after_pinned(state, flow, event, elapsed_ms, now),
        ChatStage::Cache => after_cache(state, flow, event, elapsed_ms, now),
        ChatStage::Providers => after_provider(state, flow, event, elapsed_ms, now),
    }
}

impl ChatFlow {
    /// Takes a request in: works out its session, the pin that binds it, its
    /// cache file, its disposition, its candidates and its effective model,
    /// and opens its log entry. Nothing is changed yet.
    pub fn begin(
        state: &AppState,
        request: &ChatCompletionRequest,
        session_header: Option<&str>,
        now: i64,
    ) -> (flow: ChatFlow)
        ensures
            flow.stage() == ChatStage::Start,
            flow.requested_model() == request.model@,
            flow.session() == request_session(
                state.current_config(),
                opt_text(session_header),
                *request,
            ),
            state.current_config().cache is Some ==> flow.cache() == state.current_config().cache->0,
            flow.cache().enabled == cache_enabled(state.current_config()),
            flow.cache_path() == entry_path_of(
                cache_dir_of(state.current_config()),
                cache_key_of(request.model@, request.messages@, request.extra@),
            ),
            flow.disposition() == disposition_of(state.current_config(), *request),
            provider_views(flow.candidates()) == provider_views(
                planned_route(state.current_config(), *request),
            ),
            flow.target_model() == planned_model(state.current_config(), *request),
            match binding_pin(state.sessions(), state.current_config(), flow.session(), now) {
                Some(entry) => flow.pinned_provider() is Some && flow.pinned_provider()->0@
                    == state.current_config().providers@[enabled_provider_from(
                    state.current_config().providers@,
                    entry.provider_id@,
                    0,
                )->0]@ && flow.pinned_model() == entry.model_id@,
                None => flow.pinned_provider() is None,
            },
            flow.log()@.session_id == flow.session(),
            flow.log().timestamp == now,
            is_pending(RequestLog { session_id: None, ..flow.log() }, request.model@),
            tried_in_order(flow),
    {
        let config = state.get_config();
        let profile_override = Router::parse_router_model(request.model.as_str());
        let session_config = match config.session {
            Some(c) => c,
            None => SessionConfig::default(),
        };
        let session = if session_config.enabled {
            extract_session_id(session_header, request)
        } else {
            None
        };
        let mut pinned_provider: Option<Provider> = None;
        let mut pinned_model = String::new();
        match &session {
            Some(sid) => match state.get_session_at(
                sid.as_str(),
                session_config.ttl_seconds,
                now,
            ) {
                Some(entry) => match find_enabled_provider(
                    &config.providers,
                    entry.provider_id.as_str(),
                ) {
                    Some(p) => {
                        pinned_provider = Some(p.clone());
                        pinned_model = entry.model_id;
                    },
                    None => {},
                },
                None => {},
            },
            None => {},
        }
        let cache = match &config.cache {
            Some(c) => c.clone(),
            None => CacheConfig::default(),
        };
        let key = cache_key(request.model.as_str(), request.messages.as_slice(), &request.extra);
        let cache_path = entry_path(cache.cache_dir.as_str(), key.as_str());
        let disposition = dispose(config, request);
        let candidates = Router::route_request_with_profile(
            config,
            request.model.as_str(),
            disposition.tier,
            profile_override,
            disposition.agentic,
        );
        let target_model = Router::resolve_model_id_with_profile(
            config,
            request.model.as_str(),
            disposition.tier,
            profile_override,
            disposition.agentic,
        ).to_owned();
        let mut log = RequestLog::pending(request.model.as_str(), fresh_id(), now);
        log.session_id = match &session {
            Some(sid) => Some(sid.clone()),
            None => None,
        };
        assert(string_views(log.providers_tried@) =~= Seq::<Seq<char>>::empty());
        ChatFlow {
            stage: ChatStage::Start,
            log,
            requested_model: request.model.clone(),
            session,
            cache,
            cache_path,
            disposition,
            target_model,
            candidates,
            position: 0,
            pinned_provider,
            pinned_model,
        }
    }
}


/// A step answers the client exactly when it ends the request, and exactly
/// then it appends one entry to the log, with the time that has passed as
/// its duration; the entry reads `success` exactly when the client is
/// answered with a status of success. A step that goes on leaves the log as
/// it is.
pub proof fn lemma_one_entry_per_answer(
    flow: ChatFlow,
    event: ChatEvent,
    elapsed_ms: u64,
    now: i64,
    logs_before: Seq<RequestLog>,
    logs_after: Seq<RequestLog>,
    sessions_before: Map<Seq<char>, SessionEntry>,
    sessions_after: Map<Seq<char>, SessionEntry>,
    step: ChatStep,
)
    requires
        transition(
            flow,
            event,
            elapsed_ms,
            now,
            logs_before,
            logs_after,
            sessions_before,
            sessions_after,
            step,
        ),
    ensures
        step.action is Respond <==> step.flow is None,
        step.flow is Some ==> logs_after == logs_before,
        step.flow is None ==> logs_after.len() > 0 && logs_after == ring_push(
            logs_before,
            logs_after.last(),
        ),
        step.flow is None ==> logs_after.last().duration_ms == elapsed_ms,
        step.action matches ChatAction::Respond { status, .. } ==> (logs_after.last().status@
            == "success"@ <==> is_success(status)),
{
    reveal_strlit("success");
    reveal_strlit("error");
    reveal_strlit("no_provider");
    assert("success"@.len() == 7);
    assert("error"@.len() == 5);
    assert("no_provider"@.len() == 11);
}

/// The log lists, in order, the providers that were asked, and no other:
/// a step that asks a candidate adds its name, a step that goes on keeps the
/// list in step with the candidates that were asked, and the entry of a
/// request that is over lists the candidates that were asked before the
/// answer. A request that is answered from the cache or by its pinned
/// provider lists none.
pub proof fn lemma_tried_are_asked(
    flow: ChatFlow,
    event: ChatEvent,
    elapsed_ms: u64,
    now: i64,
    logs_before: Seq<RequestLog>,
    logs_after: Seq<RequestLog>,
    sessions_before: Map<Seq<char>, SessionEntry>,
    sessions_after: Map<Seq<char>, SessionEntry>,
    step: ChatStep,
)
    requires
        tried_in_order(flow),
        transition(
            flow,
            event,
            elapsed_ms,
            now,
            logs_before,
            logs_after,
            sessions_before,
            sessions_after,
            step,
        ),
    ensures
        step.flow is Some ==> tried_in_order(step.flow->0) && step.flow->0.candidates()
            == flow.candidates(),
        step.flow is Some && step.flow->0.stage() == ChatStage::Providers ==> {
            &&& 0 <= step.flow->0.position() < flow.candidates().len()
            &&& step.action matches ChatAction::Forward { provider, .. } && provider@
                == flow.candidates()[step.flow->0.position()]@
        },
        step.flow is None ==> logs_after.len() > 0 && logs_after.last()@.providers_tried
            == tried_names(flow.stage(), flow.candidates(), flow.position()),
{
}


/// A response that was stored is replayed: when a candidate's success is
/// stored, and a request with the same cache file reads that entry back
/// within the time to live, the client gets status 200 and the very bytes of
/// the first response, the request is logged as a cache hit, and no provider
/// is asked.
pub proof fn lemma_stored_response_is_replayed(
    first: ChatFlow,
    reply: UpstreamReply,
    stored_at: i64,
    first_elapsed: u64,
    first_logs_before: Seq<RequestLog>,
    first_logs_after: Seq<RequestLog>,
    first_sessions_before: Map<Seq<char>, SessionEntry>,
    first_sessions_after: Map<Seq<char>, SessionEntry>,
    first_step: ChatStep,
    second: ChatFlow,
    read_at: i64,
    second_elapsed: u64,
    second_logs_before: Seq<RequestLog>,
    second_logs_after: Seq<RequestLog>,
    second_sessions_before: Map<Seq<char>, SessionEntry>,
    second_sessions_after: Map<Seq<char>, SessionEntry>,
    second_step: ChatStep,
)
    requires
        first.stage() == ChatStage::Providers,
        first.cache().enabled,
        is_success(reply.status),
        transition(
            first,
            ChatEvent::Upstream(Some(reply)),
            first_elapsed,
            stored_at,
            first_logs_before,
            first_logs_after,
            first_sessions_before,
            first_sessions_after,
            first_step,
        ),
        second.stage() == ChatStage::Cache,
        second.cache() == first.cache(),
        unix_seconds_of(read_at) - unix_seconds_of(stored_at) <= first.cache().ttl_seconds,
        transition(
            second,
            ChatEvent::CacheRead(Some(first_step.write_cache->0.entry)),
            second_elapsed,
            read_at,
            second_logs_before,
            second_logs_after,
            second_sessions_before,
            second_sessions_after,
            second_step,
        ),
    ensures
        first_step.write_cache is Some,
        first_step.write_cache->0.path@ == first.cache_path(),
        answers(second_step, 200, reply.body@),
        second_step.action is Respond,
        second_logs_after.len() > 0,
        second_logs_after.last()@.cache_status == Some("hit"@),
        second_logs_after.last()@.status == "success"@,
{
}

} // verus!
