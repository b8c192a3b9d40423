//! What the gateway's endpoints compute: the session id of a request, the
//! plan for forwarding it, usage and cost accounting, the model list and the
//! log query.

use vstd::prelude::*;
use vstd::utf8::encode_utf8;
use crate::cache::{sha256_hex, sha256_hex_of};
use crate::config::{Config, Model, Provider, ProviderType, RoutingProfile};
use crate::message::{
    ChatMessage, ExtraParam, ExtraValue, MessageContent, find_extra, has_role, lookup_extra,
    role_text,
};
use crate::router::{find_model, model_index_from, opt_text};
use crate::state::{AppState, RequestLog, opt_view};
use crate::text::{contains_text, str_contains, str_eq, string_views};

verus! {

/// A chat-completion request: the model, the messages and the further
/// parameters.
#[derive(Debug)]
pub struct ChatCompletionRequest {
    pub model: String,
    pub messages: Vec<ChatMessage>,
    pub extra: Vec<ExtraParam>,
}

/// The string that a request holds under a key, if it holds one there and it
/// is not empty.
pub open spec fn extra_string(extra: Seq<ExtraParam>, key: Seq<char>) -> Option<Seq<char>> {
    match find_extra(extra, key) {
        Some(i) => match extra[i].value {
            ExtraValue::Text(s) => if s@.len() > 0 {
                Some(s@)
            } else {
                None
            },
            _ => None,
        },
        None => None,
    }
}

/// The string content of a message; empty where its content is no string.
pub open spec fn content_text(m: ChatMessage) -> Seq<char> {
    match m.content {
        MessageContent::Text(s) => s@,
        _ => Seq::empty(),
    }
}

/// The string contents of the `system` messages among the first `upto`
/// messages, one after the other.
pub open spec fn system_text_upto(messages: Seq<ChatMessage>, upto: int) -> Seq<char>
    decreases upto,
{
    if upto <= 0 {
        Seq::empty()
    } else if role_text(messages[upto - 1]) == "system"@ {
        system_text_upto(messages, upto - 1) + content_text(messages[upto - 1])
    } else {
        system_text_upto(messages, upto - 1)
    }
}

/// The position of the first `user` message at or after `from`.
pub open spec fn first_user_from(messages: Seq<ChatMessage>, from: int) -> Option<int>
    decreases messages.len() - from,
{
    if from < 0 || from >= messages.len() {
        None
    } else if role_text(messages[from]) == "user"@ {
        Some(from)
    } else {
        first_user_from(messages, from + 1)
    }
}

/// The string content of the first `user` message; empty without one.
pub open spec fn first_user_text(messages: Seq<ChatMessage>) -> Seq<char> {
    match first_user_from(messages, 0) {
        Some(i) => content_text(messages[i]),
        None => Seq::empty(),
    }
}

/// The text that a request is fingerprinted by: the string contents of all
/// its `system` messages, then that of its first `user` message.
pub open spec fn fingerprint_text_of(messages: Seq<ChatMessage>) -> Seq<char> {
    system_text_upto(messages, messages.len() as int) + first_user_text(messages)
}

/// The session id of a request: the session header if it is not empty; else
/// the request's `conversation_id` if it is a non-empty string; else `fp:`
/// and the SHA-256 digest of the fingerprint text, if that is not empty.
pub open spec fn session_id_of(header: Option<Seq<char>>, request: ChatCompletionRequest)
    -> Option<Seq<char>> {
    if header is Some && header->0.len() > 0 {
        header
    } else if extra_string(request.extra@, "conversation_id"@) is Some {
        extra_string(request.extra@, "conversation_id"@)
    } else {
        let text = fingerprint_text_of(request.messages@);
        if text.len() > 0 {
            Some("fp:"@ + sha256_hex_of(encode_utf8(text)))
        } else {
            None
        }
    }
}

fn fingerprint_text(messages: &Vec<ChatMessage>) -> (text: String)
    ensures
        text@ == fingerprint_text_of(messages@),
{
    let mut text = String::new();
    let mut user = String::new();
    let mut seen = false;
    let mut i: usize = 0;
    while i < messages.len()
        invariant
            i <= messages.len(),
            text@ == system_text_upto(messages@, i as int),
            seen ==> user@ == first_user_text(messages@),
            !seen ==> user@ == Seq::<char>::empty() && first_user_from(messages@, 0)
                == first_user_from(messages@, i as int),
        decreases messages.len() - i,
    {
        let msg = &messages[i];
        if has_role(msg, "system") {
            match &msg.content {
                MessageContent::Text(s) => {
                    text.append(s.as_str());
                },
                _ => {
                    assert(text@ =~= text@ + content_text(*msg));
                },
            }
        }
        if !seen && has_role(msg, "user") {
            match &msg.content {
                MessageContent::Text(s) => {
                    user = s.clone();
                },
                _ => {
                    assert(user@ =~= Seq::<char>::empty());
                },
            }
            seen = true;
        }
        i += 1;
    }
    if !seen {
        assert(user@ =~= first_user_text(messages@));
    }
    text.append(user.as_str());
    text
}

/// Extracts the session id of a request, given the value of its session
/// header.
pub fn extract_session_id(header: Option<&str>, request: &ChatCompletionRequest) -> (r: Option<
    String,
>)
    ensures
        opt_view(r) == session_id_of(opt_text(header), *request),
{
    match header {
        Some(h) => {
            if h.unicode_len() > 0 {
                return Some(h.to_owned());
            }
        },
        None => {},
    }
    match lookup_extra(&request.extra, "conversation_id") {
        Some(param) => match &param.value {
            ExtraValue::Text(s) => {
                if s.as_str().unicode_len() > 0 {
                    return Some(s.clone());
                }
            },
            _ => {},
        },
        None => {},
    }
    let text = fingerprint_text(&request.messages);
    if text.as_str().unicode_len() > 0 {
        let mut id = "fp:".to_owned();
        let digest = sha256_hex(text.as_str().as_bytes());
        id.append(digest.as_str());
        Some(id)
    } else {
        None
    }
}

/// Whether a request brings tools: its `tools` parameter is an array that
/// is not empty.
pub open spec fn brings_tools(extra: Seq<ExtraParam>) -> bool {
    match find_extra(extra, "tools"@) {
        Some(i) => match extra[i].value {
            ExtraValue::Array(n) => n > 0,
            _ => false,
        },
        None => false,
    }
}

/// Whether the request brings tools.
pub fn has_tools(request: &ChatCompletionRequest) -> (r: bool)
    ensures
        r == brings_tools(request.extra@),
{
    match lookup_extra(&request.extra, "tools") {
        Some(param) => match param.value {
            ExtraValue::Array(n) => n > 0,
            _ => false,
        },
        None => false,
    }
}

/// The endpoint that a provider without one of its own is reached at.
pub const DEFAULT_ENDPOINT: &'static str = "https://api.openai.com/v1/chat/completions";

/// How a request is sent to a provider. The body is the request in the
/// provider's shape, with the effective model and the forwarded parameters.
#[derive(Debug)]
pub struct ForwardPlan {
    pub url: String,
    /// Whether the body and the response are in the Anthropic shape.
    pub anthropic: bool,
    /// Headers of the client's request that are not passed on.
    pub remove_headers: Vec<String>,
    /// Headers that are set, each replacing what the client sent under that
    /// name.
    pub set_headers: Vec<(String, String)>,
}

/// The key of a provider; empty where it has none.
pub open spec fn api_key_of(p: Provider) -> Seq<char> {
    match p.api_key {
        Some(k) => k@,
        None => Seq::empty(),
    }
}

/// The address that a provider is reached at.
pub open spec fn endpoint_of(p: Provider) -> Seq<char> {
    match p.endpoint {
        Some(e) => e@,
        None => DEFAULT_ENDPOINT@,
    }
}

/// The names of the client's headers that are not passed on to a provider:
/// `host` and `content-length`, and for the Anthropic shape `authorization`.
pub open spec fn removed_headers(p: Provider) -> Seq<Seq<char>> {
    if p.provider_type == ProviderType::Anthropic {
        seq!["host"@, "content-length"@, "authorization"@]
    } else {
        seq!["host"@, "content-length"@]
    }
}

/// The headers that are set for a provider. For the Anthropic shape: the key
/// under `x-api-key`, the protocol version and the content type. For the
/// others: the key as a bearer token under `Authorization`, unless the
/// provider has no key; then the client's own header is passed on.
pub open spec fn added_headers(p: Provider) -> Seq<(Seq<char>, Seq<char>)> {
    if p.provider_type == ProviderType::Anthropic {
        seq![
            ("x-api-key"@, api_key_of(p)),
            ("anthropic-version"@, "2023-06-01"@),
            ("content-type"@, "application/json"@),
        ]
    } else if api_key_of(p).len() > 0 {
        seq![("Authorization"@, "Bearer "@ + api_key_of(p))]
    } else {
        Seq::empty()
    }
}

/// The views of a list of headers.
pub open spec fn header_pairs(pairs: Seq<(String, String)>) -> Seq<(Seq<char>, Seq<char>)> {
    Seq::new(pairs.len(), |i: int| (pairs[i].0@, pairs[i].1@))
}

/// Plans how a request is sent to a provider.
pub fn forward_plan(provider: &Provider) -> (plan: ForwardPlan)
    ensures
        plan.url@ == endpoint_of(*provider),
        plan.anthropic == (provider.provider_type == ProviderType::Anthropic),
        string_views(plan.remove_headers@) == removed_headers(*provider),
        header_pairs(plan.set_headers@) == added_headers(*provider),
{
    let url = match &provider.endpoint {
        Some(e) => e.clone(),
        None => DEFAULT_ENDPOINT.to_owned(),
    };
    let api_key = match &provider.api_key {
        Some(k) => k.clone(),
        None => String::new(),
    };
    let anthropic = provider.provider_type == ProviderType::Anthropic;
    let mut remove_headers = vec!["host".to_owned(), "content-length".to_owned()];
    let mut set_headers: Vec<(String, String)> = Vec::new();
    if anthropic {
        remove_headers.push("authorization".to_owned());
        set_headers.push(("x-api-key".to_owned(), api_key));
        set_headers.push(("anthropic-version".to_owned(), "2023-06-01".to_owned()));
        set_headers.push(("content-type".to_owned(), "application/json".to_owned()));
    } else if api_key.as_str().unicode_len() > 0 {
        let mut bearer = "Bearer ".to_owned();
        bearer.append(api_key.as_str());
        set_headers.push(("Authorization".to_owned(), bearer));
    }
    assert(string_views(remove_headers@) =~= removed_headers(*provider));
    assert(header_pairs(set_headers@) =~= added_headers(*provider));
    ForwardPlan { url, anthropic, remove_headers, set_headers }
}

/// Whether an HTTP status reports success: 200 to 299.
pub open spec fn is_success(status: u16) -> bool {
    200 <= status <= 299
}

/// Whether an upstream status counts as success.
pub fn is_success_status(status: u16) -> (r: bool)
    ensures
        r == is_success(status),
{
    200 <= status && status <= 299
}

/// The price of a request in millionths of a currency unit, rounded down:
/// each token count times its price per million tokens, over a million.
pub open spec fn cost_of(input_tokens: u64, output_tokens: u64, model: Model) -> int {
    (input_tokens * model.input_cost_per_1m + output_tokens * model.output_cost_per_1m)
        / 1_000_000
}

/// The price as it is recorded: `cost_of`, capped at `u64::MAX`.
pub open spec fn recorded_cost(input_tokens: u64, output_tokens: u64, model: Model) -> u64 {
    if cost_of(input_tokens, output_tokens, model) > u64::MAX {
        u64::MAX
    } else {
        cost_of(input_tokens, output_tokens, model) as u64
    }
}

fn product(a: u64, b: u64) -> (r: u128)
    ensures
        r == a * b,
{
    assert(a * b <= 0xffff_ffff_ffff_ffff * 0xffff_ffff_ffff_ffff) by (nonlinear_arith)
        requires
            0 <= a <= 0xffff_ffff_ffff_ffff,
            0 <= b <= 0xffff_ffff_ffff_ffff,
    ;
    (a as u128) * (b as u128)
}

/// Estimates the price of a request from its token counts.
pub fn estimate_cost(input_tokens: u64, output_tokens: u64, model: &Model) -> (r: u64)
    ensures
        r == recorded_cost(input_tokens, output_tokens, *model),
{
    let a = product(input_tokens, model.input_cost_per_1m);
    let b = product(output_tokens, model.output_cost_per_1m);
    let whole: u128 = a / 1_000_000 + b / 1_000_000 + (a % 1_000_000 + b % 1_000_000) / 1_000_000;
    assert(whole == (a + b) / 1_000_000);
    if whole > u64::MAX as u128 {
        u64::MAX
    } else {
        whole as u64
    }
}

/// The cost that is recorded for a response: that of the model of the
/// provider with the effective model's id, where both token counts are known
/// and the provider offers the model.
pub open spec fn usage_cost(
    provider: Provider,
    model: Seq<char>,
    input_tokens: Option<u64>,
    output_tokens: Option<u64>,
) -> Option<u64> {
    if input_tokens is Some && output_tokens is Some && model_index_from(
        provider.models@,
        model,
        0,
    ) is Some {
        Some(
            recorded_cost(
                input_tokens->0,
                output_tokens->0,
                provider.models@[model_index_from(provider.models@, model, 0)->0],
            ),
        )
    } else {
        None
    }
}

/// Prices the usage that a provider reported.
pub fn price_usage(
    provider: &Provider,
    model: &str,
    input_tokens: Option<u64>,
    output_tokens: Option<u64>,
) -> (r: Option<u64>)
    ensures
        r == usage_cost(*provider, model@, input_tokens, output_tokens),
{
    match (input_tokens, output_tokens) {
        (Some(i), Some(o)) => match find_model(provider, model) {
            Some(m) => Some(estimate_cost(i, o, m)),
            None => None,
        },
        _ => None,
    }
}


/// The creation time that every entry of the model list carries.
pub const MODELS_CREATED: u64 = 1677610602;

/// One entry of the model list.
#[derive(Debug)]
pub struct ModelEntry {
    pub id: String,
    pub object: String,
    pub created: u64,
    pub owned_by: String,
}

/// The model list.
#[derive(Debug)]
pub struct ModelListResponse {
    pub object: String,
    pub data: Vec<ModelEntry>,
}

/// A `ModelEntry` as mathematical values.
pub struct ModelEntryView {
    pub id: Seq<char>,
    pub object: Seq<char>,
    pub created: u64,
    pub owned_by: Seq<char>,
}

impl View for ModelEntry {
    type V = ModelEntryView;

    open spec fn view(&self) -> ModelEntryView {
        ModelEntryView {
            id: self.id@,
            object: self.object@,
            created: self.created,
            owned_by: self.owned_by@,
        }
    }
}

/// The views of a list of entries.
pub open spec fn entry_views(entries: Seq<ModelEntry>) -> Seq<ModelEntryView> {
    Seq::new(entries.len(), |i: int| entries[i]@)
}

/// The entry of a profile: the virtual model `router/<name>`, owned by the
/// gateway.
pub open spec fn profile_entry(profile: RoutingProfile) -> ModelEntryView {
    ModelEntryView {
        id: "router/"@ + profile.name@,
        object: "model"@,
        created: MODELS_CREATED,
        owned_by: "claw-router"@,
    }
}

/// The entry of a model of a provider, owned by the provider.
pub open spec fn model_entry(provider: Provider, model: Model) -> ModelEntryView {
    ModelEntryView {
        id: model.id@,
        object: "model"@,
        created: MODELS_CREATED,
        owned_by: provider.name@,
    }
}

/// The entries of the first `upto` profiles.
pub open spec fn profile_entries_upto(profiles: Seq<RoutingProfile>, upto: int) -> Seq<
    ModelEntryView,
>
    decreases upto,
{
    if upto <= 0 {
        Seq::empty()
    } else {
        profile_entries_upto(profiles, upto - 1).push(profile_entry(profiles[upto - 1]))
    }
}

/// The entries of the first `upto` models of a provider.
pub open spec fn provider_entries_upto(provider: Provider, upto: int) -> Seq<ModelEntryView>
    decreases upto,
{
    if upto <= 0 {
        Seq::empty()
    } else {
        provider_entries_upto(provider, upto - 1).push(
            model_entry(provider, provider.models@[upto - 1]),
        )
    }
}

/// The entries of the models of the first `upto` providers.
pub open spec fn catalog_entries_upto(providers: Seq<Provider>, upto: int) -> Seq<ModelEntryView>
    decreases upto,
{
    if upto <= 0 {
        Seq::empty()
    } else {
        catalog_entries_upto(providers, upto - 1) + provider_entries_upto(
            providers[upto - 1],
            providers[upto - 1].models@.len() as int,
        )
    }
}

/// The model list of a configuration: one entry for each profile, then one
/// for each model of each provider.
pub open spec fn model_list(config: Config) -> Seq<ModelEntryView> {
    profile_entries_upto(config.profiles@, config.profiles@.len() as int) + catalog_entries_upto(
        config.providers@,
        config.providers@.len() as int,
    )
}

/// Lists the models that the gateway offers.
pub fn list_models(config: &Config) -> (r: ModelListResponse)
    ensures
        r.object@ == "list"@,
        entry_views(r.data@) == model_list(*config),
{
    let mut data: Vec<ModelEntry> = Vec::new();
    let mut i: usize = 0;
    while i < config.profiles.len()
        invariant
            i <= config.profiles.len(),
            entry_views(data@) =~= profile_entries_upto(config.profiles@, i as int),
        decreases config.profiles.len() - i,
    {
        let mut id = "router/".to_owned();
        id.append(config.profiles[i].name.as_str());
        data.push(
            ModelEntry {
                id,
                object: "model".to_owned(),
                created: MODELS_CREATED,
                owned_by: "claw-router".to_owned(),
            },
        );
        i += 1;
    }
    let ghost heads = entry_views(data@);
    let mut p: usize = 0;
    while p < config.providers.len()
        invariant
            p <= config.providers.len(),
            heads == profile_entries_upto(config.profiles@, config.profiles@.len() as int),
            entry_views(data@) =~= heads + catalog_entries_upto(config.providers@, p as int),
        decreases config.providers.len() - p,
    {
        let provider = &config.providers[p];
        let ghost before = entry_views(data@);
        let mut m: usize = 0;
        while m < provider.models.len()
            invariant
                m <= provider.models.len(),
                entry_views(data@) =~= before + provider_entries_upto(*provider, m as int),
            decreases provider.models.len() - m,
        {
            let ghost sofar = entry_views(data@);
            data.push(
                ModelEntry {
                    id: provider.models[m].id.clone(),
                    object: "model".to_owned(),
                    created: MODELS_CREATED,
                    owned_by: provider.name.clone(),
                },
            );
            assert(entry_views(data@) =~= sofar.push(
                model_entry(*provider, provider.models@[m as int]),
            ));
            m += 1;
        }
        p += 1;
    }
    ModelListResponse { object: "list".to_owned(), data }
}

/// The filter and the page of a log query.
#[derive(Debug)]
pub struct LogsQuery {
    pub limit: Option<usize>,
    pub offset: Option<usize>,
    pub status: Option<String>,
    pub model: Option<String>,
    pub provider: Option<String>,
}

/// The most entries that one page holds.
pub const MAX_PAGE: usize = 200;

/// The number of entries that a page holds where the query names none.
pub const DEFAULT_PAGE: usize = 50;

/// One page of a log query.
#[derive(Debug)]
pub struct LogsPage<'a> {
    /// The entries of the page, newest first.
    pub logs: Vec<&'a RequestLog>,
    /// How many entries the filter lets through.
    pub total: usize,
    pub limit: usize,
    pub offset: usize,
}

/// Whether a log entry passes the filter of a query: the status is the one
/// asked for, the model holds the text asked for, and the entry has a
/// provider that holds the text asked for.
pub open spec fn matches_query(log: RequestLog, query: LogsQuery) -> bool {
    &&& query.status is Some ==> log.status@ == query.status->0@
    &&& query.model is Some ==> contains_text(log.model@, query.model->0@)
    &&& query.provider is Some ==> log.provider is Some && contains_text(
        log.provider->0@,
        query.provider->0@,
    )
}

/// The positions at or after `from` of the entries that pass the filter,
/// the last one first.
pub open spec fn matching_from(logs: Seq<RequestLog>, query: LogsQuery, from: int) -> Seq<usize>
    decreases logs.len() - from,
{
    if from < 0 || from >= logs.len() {
        Seq::empty()
    } else if matches_query(logs[from], query) {
        matching_from(logs, query, from + 1).push(from as usize)
    } else {
        matching_from(logs, query, from + 1)
    }
}

/// The size of a page: what the query asks for, at most `MAX_PAGE`, and
/// `DEFAULT_PAGE` where it asks for none.
pub open spec fn page_limit(query: LogsQuery) -> usize {
    match query.limit {
        Some(n) => if n > MAX_PAGE {
            MAX_PAGE
        } else {
            n
        },
        None => DEFAULT_PAGE,
    }
}

/// The number of entries that a page skips.
pub open spec fn page_offset(query: LogsQuery) -> usize {
    match query.offset {
        Some(n) => n,
        None => 0,
    }
}

/// The part of a list that a page shows.
pub open spec fn page_of(found: Seq<usize>, offset: int, limit: int) -> Seq<usize> {
    if offset >= found.len() {
        Seq::empty()
    } else if offset + limit >= found.len() {
        found.subrange(offset, found.len() as int)
    } else {
        found.subrange(offset, offset + limit)
    }
}

fn passes(log: &RequestLog, query: &LogsQuery) -> (r: bool)
    ensures
        r == matches_query(*log, *query),
{
    match &query.status {
        Some(s) => {
            if !str_eq(log.status.as_str(), s.as_str()) {
                return false;
            }
        },
        None => {},
    }
    match &query.model {
        Some(m) => {
            if !str_contains(log.model.as_str(), m.as_str()) {
                return false;
            }
        },
        None => {},
    }
    match &query.provider {
        Some(p) => match &log.provider {
            Some(have) => {
                if !str_contains(have.as_str(), p.as_str()) {
                    return false;
                }
            },
            None => {
                return false;
            },
        },
        None => {},
    }
    true
}

/// Answers a log query: the entries that pass the filter, newest first, cut
/// to the page asked for, with the number of all entries that pass.
pub fn get_logs<'a>(logs: &'a Vec<RequestLog>, query: &LogsQuery) -> (page: LogsPage<'a>)
    ensures
        page.limit == page_limit(*query),
        page.offset == page_offset(*query),
        page.total == matching_from(logs@, *query, 0).len(),
        page.logs@.len() == page_of(
            matching_from(logs@, *query, 0),
            page.offset as int,
            page.limit as int,
        ).len(),
        forall|k: int|
            0 <= k < page.logs@.len() ==> *(#[trigger] page.logs@[k]) == logs@[page_of(
                matching_from(logs@, *query, 0),
                page.offset as int,
                page.limit as int,
            )[k] as int],
{
    let limit = match query.limit {
        Some(n) => if n > MAX_PAGE {
            MAX_PAGE
        } else {
            n
        },
        None => DEFAULT_PAGE,
    };
    let offset = match query.offset {
        Some(n) => n,
        None => 0,
    };
    let mut found: Vec<usize> = Vec::new();
    let mut i: usize = logs.len();
    while i > 0
        invariant
            i <= logs.len(),
            found@ == matching_from(logs@, *query, i as int),
            found@.len() <= logs.len() - i,
            forall|k: int| 0 <= k < found@.len() ==> #[trigger] found@[k] < logs@.len(),
        decreases i,
    {
        i -= 1;
        if passes(&logs[i], query) {
            found.push(i);
        }
    }
    let total = found.len();
    let mut page: Vec<&'a RequestLog> = Vec::new();
    let ghost shown = page_of(found@, offset as int, limit as int);
    if offset < total {
        let room = total - offset;
        let count = if limit < room {
            limit
        } else {
            room
        };
        assert(shown =~= found@.subrange(offset as int, offset + count));
        let mut k: usize = 0;
        while k < count
            invariant
                k <= count,
                offset + count <= found.len(),
                page@.len() == k,
                forall|j: int| 0 <= j < found@.len() ==> #[trigger] found@[j] < logs@.len(),
                forall|j: int| 0 <= j < k ==> *(#[trigger] page@[j]) == logs@[found@[offset + j] as int],
            decreases count - k,
        {
            page.push(&logs[found[offset + k]]);
            k += 1;
        }
    }
    LogsPage { logs: page, total, limit, offset }
}

/// The live configuration.
pub fn get_config(state: &AppState) -> (r: &Config)
    ensures
        *r == state.current_config(),
{
    state.get_config()
}

/// Puts a new configuration in force and reports, as an HTTP status, whether
/// it could be persisted: 200 if so, else 500. The new configuration is in
/// force either way.
pub fn update_config(state: &mut AppState, new_config: Config, persisted: bool) -> (status: u16)
    ensures
        final(state).current_config() == new_config,
        final(state).persisted_at() == old(state).persisted_at(),
        final(state).log_entries() == old(state).log_entries(),
        final(state).sessions() == old(state).sessions(),
        status == if persisted {
            200u16
        } else {
            500u16
        },
{
    state.update_config(new_config);
    if persisted {
        200
    } else {
        500
    }
}

} // verus!
