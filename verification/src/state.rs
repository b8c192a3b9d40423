//! The state store: the live configuration, the bounded request log and the
//! session table.

use vstd::prelude::*;
use crate::config::Config;
use crate::text::string_views;

verus! {

/// The most log entries that the store keeps.
pub const MAX_LOGS: usize = 1000;

/// A session pin: the provider and model that a conversation sticks to.
#[derive(Debug)]
pub struct SessionEntry {
    pub provider_id: String,
    pub model_id: String,
    /// Unix time of the last use, in seconds.
    pub last_active: i64,
}

impl Clone for SessionEntry {
    fn clone(&self) -> (r: Self)
        ensures
            r == *self,
    {
        SessionEntry {
            provider_id: self.provider_id.clone(),
            model_id: self.model_id.clone(),
            last_active: self.last_active,
        }
    }
}

/// The record of one request.
#[derive(Debug, Clone)]
pub struct RequestLog {
    pub id: String,
    /// Unix time of the request's start, in seconds.
    pub timestamp: i64,
    pub model: String,
    pub effective_model: Option<String>,
    pub provider: Option<String>,
    /// `pending`, `success`, `error` or `no_provider`.
    pub status: String,
    pub status_code: Option<u16>,
    pub duration_ms: u64,
    pub input_tokens: Option<u64>,
    pub output_tokens: Option<u64>,
    /// In millionths of a currency unit.
    pub estimated_cost: Option<u64>,
    pub complexity_tier: Option<String>,
    /// In millionths.
    pub complexity_score: Option<i64>,
    pub error_message: Option<String>,
    pub providers_tried: Vec<String>,
    /// `hit`, `miss` or `skip`.
    pub cache_status: Option<String>,
    pub agentic_mode: Option<bool>,
    pub session_id: Option<String>,
    pub session_pinned: Option<bool>,
}

/// The characters of an optional string.
pub open spec fn opt_view(o: Option<String>) -> Option<Seq<char>> {
    match o {
        Some(s) => Some(s@),
        None => None,
    }
}

/// A `RequestLog` as mathematical values.
pub struct RequestLogView {
    pub id: Seq<char>,
    pub timestamp: i64,
    pub model: Seq<char>,
    pub effective_model: Option<Seq<char>>,
    pub provider: Option<Seq<char>>,
    pub status: Seq<char>,
    pub status_code: Option<u16>,
    pub duration_ms: u64,
    pub input_tokens: Option<u64>,
    pub output_tokens: Option<u64>,
    pub estimated_cost: Option<u64>,
    pub complexity_tier: Option<Seq<char>>,
    pub complexity_score: Option<i64>,
    pub error_message: Option<Seq<char>>,
    pub providers_tried: Seq<Seq<char>>,
    pub cache_status: Option<Seq<char>>,
    pub agentic_mode: Option<bool>,
    pub session_id: Option<Seq<char>>,
    pub session_pinned: Option<bool>,
}

impl View for RequestLog {
    type V = RequestLogView;

    open spec fn view(&self) -> RequestLogView {
        RequestLogView {
            id: self.id@,
            timestamp: self.timestamp,
            model: self.model@,
            effective_model: opt_view(self.effective_model),
            provider: opt_view(self.provider),
            status: self.status@,
            status_code: self.status_code,
            duration_ms: self.duration_ms,
            input_tokens: self.input_tokens,
            output_tokens: self.output_tokens,
            estimated_cost: self.estimated_cost,
            complexity_tier: opt_view(self.complexity_tier),
            complexity_score: self.complexity_score,
            error_message: opt_view(self.error_message),
            providers_tried: string_views(self.providers_tried@),
            cache_status: opt_view(self.cache_status),
            agentic_mode: self.agentic_mode,
            session_id: opt_view(self.session_id),
            session_pinned: self.session_pinned,
        }
    }
}

/// Whether a log entry is that of a request for `model` that has just
/// begun: pending, with nothing recorded yet.
pub open spec fn is_pending(log: RequestLog, model: Seq<char>) -> bool {
    &&& log.model@ == model
    &&& log.status@ == "pending"@
    &&& log.effective_model is None
    &&& log.provider is None
    &&& log.status_code is None
    &&& log.duration_ms == 0
    &&& log.input_tokens is None
    &&& log.output_tokens is None
    &&& log.estimated_cost is None
    &&& log.complexity_tier is None
    &&& log.complexity_score is None
    &&& log.error_message is None
    &&& log.providers_tried@.len() == 0
    &&& log.cache_status is None
    &&& log.agentic_mode is None
    &&& log.session_id is None
    &&& log.session_pinned is None
}

/// Draws a random identifier with `uuid::Uuid::new_v4` and renders it with
/// its `to_string`. Nothing is promised of the result. The call fails only
/// where the operating system's source of randomness does.
#[verifier::external_body]
pub(crate) fn fresh_id() -> String {
    uuid::Uuid::new_v4().to_string()
}

/// Reads the clock with `chrono::Utc::now` and returns its Unix time in
/// seconds, as `DateTime::timestamp` gives it. Nothing is promised of the
/// result. The call fails only where the system clock stands before 1970.
#[verifier::external_body]
pub(crate) fn utc_now() -> i64 {
    chrono::Utc::now().timestamp()
}

impl RequestLog {
    /// A pending entry with the given identity.
    pub fn pending(model: &str, id: String, timestamp: i64) -> (r: RequestLog)
        ensures
            is_pending(r, model@),
            r.id == id,
            r.timestamp == timestamp,
    {
        RequestLog {
            id,
            timestamp,
            model: model.to_owned(),
            effective_model: None,
            provider: None,
            status: "pending".to_owned(),
            status_code: None,
            duration_ms: 0,
            input_tokens: None,
            output_tokens: None,
            estimated_cost: None,
            complexity_tier: None,
            complexity_score: None,
            error_message: None,
            providers_tried: Vec::new(),
            cache_status: None,
            agentic_mode: None,
            session_id: None,
            session_pinned: None,
        }
    }

    /// A pending entry with a fresh random id and the current time.
    pub fn new(model: &str) -> (r: RequestLog)
        ensures
            is_pending(r, model@),
    {
        let id = fresh_id();
        let timestamp = utc_now();
        RequestLog::pending(model, id, timestamp)
    }
}

/// The log after an entry was appended: a full log drops its oldest entry
/// first.
pub open spec fn ring_push(logs: Seq<RequestLog>, log: RequestLog) -> Seq<RequestLog> {
    if logs.len() < MAX_LOGS {
        logs.push(log)
    } else {
        logs.skip(1).push(log)
    }
}

/// A log of at most `MAX_LOGS` entries never grows beyond that: appending
/// to a full log drops exactly its oldest entry, and the entries that stay
/// keep their order, with the new one last.
pub proof fn lemma_ring_push_bounded(logs: Seq<RequestLog>, log: RequestLog)
    requires
        logs.len() <= MAX_LOGS,
    ensures
        ring_push(logs, log).len() <= MAX_LOGS,
        ring_push(logs, log).last() == log,
        logs.len() < MAX_LOGS ==> ring_push(logs, log).drop_last() == logs,
        logs.len() == MAX_LOGS ==> ring_push(logs, log).drop_last() == logs.drop_first(),
{
    if logs.len() < MAX_LOGS {
        assert(ring_push(logs, log).drop_last() =~= logs);
    } else {
        assert(ring_push(logs, log).drop_last() =~= logs.drop_first());
    }
}

/// The position of the first entry with key `key` at or after `from`.
pub open spec fn key_index_from(entries: Seq<(String, SessionEntry)>, key: Seq<char>, from: int)
    -> Option<int>
    decreases entries.len() - from,
{
    if from < 0 || from >= entries.len() {
        None
    } else if entries[from].0@ == key {
        Some(from)
    } else {
        key_index_from(entries, key, from + 1)
    }
}

/// No key occurs twice.
pub open spec fn distinct_keys(entries: Seq<(String, SessionEntry)>) -> bool {
    forall|i: int, j: int| 0 <= i < j < entries.len() ==> entries[i].0@ != entries[j].0@
}

/// The table that a list of entries stands for.
pub open spec fn table_of(entries: Seq<(String, SessionEntry)>) -> Map<Seq<char>, SessionEntry> {
    Map::new(
        |k: Seq<char>| key_index_from(entries, k, 0) is Some,
        |k: Seq<char>| entries[key_index_from(entries, k, 0)->0].1,
    )
}

/// `key_index_from` returns the first position that holds the key.
pub proof fn lemma_key_index(entries: Seq<(String, SessionEntry)>, key: Seq<char>, from: int)
    requires
        0 <= from,
    ensures
        match key_index_from(entries, key, from) {
            Some(i) => from <= i < entries.len() && entries[i].0@ == key,
            None => forall|j: int| from <= j < entries.len() ==> entries[j].0@ != key,
        },
    decreases entries.len() - from,
{
    if from < entries.len() && entries[from].0@ != key {
        lemma_key_index(entries, key, from + 1);
    }
}

/// With distinct keys, each position is the one that its key is found at.
pub proof fn lemma_key_index_unique(entries: Seq<(String, SessionEntry)>, at: int)
    requires
        distinct_keys(entries),
        0 <= at < entries.len(),
    ensures
        key_index_from(entries, entries[at].0@, 0) == Some(at),
{
    lemma_key_index(entries, entries[at].0@, 0);
}

/// With distinct keys, the table holds exactly the entries of the list.
pub proof fn lemma_table_entries(entries: Seq<(String, SessionEntry)>)
    requires
        distinct_keys(entries),
    ensures
        forall|i: int|
            0 <= i < entries.len() ==> table_of(entries).contains_key(#[trigger] entries[i].0@)
                && table_of(entries)[entries[i].0@] == entries[i].1,
        forall|k: Seq<char>| #[trigger]
            table_of(entries).contains_key(k) ==> 0 <= key_index_from(entries, k, 0)->0
                < entries.len() && entries[key_index_from(entries, k, 0)->0].0@ == k,
{
    assert forall|i: int| 0 <= i < entries.len() implies table_of(entries).contains_key(
        #[trigger] entries[i].0@,
    ) && table_of(entries)[entries[i].0@] == entries[i].1 by {
        lemma_key_index_unique(entries, i);
    }
    assert forall|k: Seq<char>| #[trigger] table_of(entries).contains_key(k) implies 0
        <= key_index_from(entries, k, 0)->0 < entries.len() && entries[key_index_from(
        entries,
        k,
        0,
    )->0].0@ == k by {
        lemma_key_index(entries, k, 0);
    }
}

/// Overwriting the entry of a key in the list overwrites it in the table.
pub proof fn lemma_table_overwrite(
    before: Seq<(String, SessionEntry)>,
    at: int,
    key: String,
    entry: SessionEntry,
)
    requires
        distinct_keys(before),
        0 <= at < before.len(),
        before[at].0@ == key@,
    ensures
        distinct_keys(before.update(at, (key, entry))),
        table_of(before.update(at, (key, entry))) == table_of(before).insert(key@, entry),
{
    let after = before.update(at, (key, entry));
    assert forall|i: int, j: int| 0 <= i < j < after.len() implies after[i].0@ != after[j].0@ by {
        assert(after[i].0@ == before[i].0@);
        assert(after[j].0@ == before[j].0@);
    }
    lemma_table_entries(before);
    lemma_table_entries(after);
    let want = table_of(before).insert(key@, entry);
    assert forall|k: Seq<char>| table_of(after).contains_key(k) <==> want.contains_key(k) by {
        if table_of(after).contains_key(k) {
            let a = key_index_from(after, k, 0)->0;
            assert(before[a].0@ == k);
        }
        if want.contains_key(k) {
            if k == key@ {
                assert(after[at].0@ == k);
            } else {
                let b = key_index_from(before, k, 0)->0;
                assert(after[b].0@ == k);
            }
        }
    }
    assert forall|k: Seq<char>| table_of(after).contains_key(k) implies table_of(after)[k]
        == want[k] by {
        let a = key_index_from(after, k, 0)->0;
        assert(table_of(after)[after[a].0@] == after[a].1);
        if a != at {
            assert(after[a] == before[a]);
            assert(table_of(before)[before[a].0@] == before[a].1);
        }
    }
    assert(table_of(after) =~= want);
}

/// Appending an entry under a new key inserts it into the table.
pub proof fn lemma_table_append(
    before: Seq<(String, SessionEntry)>,
    key: String,
    entry: SessionEntry,
)
    requires
        distinct_keys(before),
        forall|j: int| 0 <= j < before.len() ==> before[j].0@ != key@,
    ensures
        distinct_keys(before.push((key, entry))),
        table_of(before.push((key, entry))) == table_of(before).insert(key@, entry),
{
    let after = before.push((key, entry));
    assert forall|i: int, j: int| 0 <= i < j < after.len() implies after[i].0@ != after[j].0@ by {
        assert(after[i] == before[i]);
        if j < before.len() {
            assert(after[j] == before[j]);
        }
    }
    lemma_table_entries(before);
    lemma_table_entries(after);
    let want = table_of(before).insert(key@, entry);
    assert forall|k: Seq<char>| table_of(after).contains_key(k) <==> want.contains_key(k) by {
        if table_of(after).contains_key(k) {
            let a = key_index_from(after, k, 0)->0;
            if a < before.len() {
                assert(before[a].0@ == k);
            }
        }
        if want.contains_key(k) {
            if k == key@ {
                assert(after[before.len() as int].0@ == k);
            } else {
                let b = key_index_from(before, k, 0)->0;
                assert(after[b].0@ == k);
            }
        }
    }
    assert forall|k: Seq<char>| table_of(after).contains_key(k) implies table_of(after)[k]
        == want[k] by {
        let a = key_index_from(after, k, 0)->0;
        assert(table_of(after)[after[a].0@] == after[a].1);
        if a < before.len() {
            assert(after[a] == before[a]);
            assert(table_of(before)[before[a].0@] == before[a].1);
        }
    }
    assert(table_of(after) =~= want);
}

/// Whether an entry is still live at time `now` under a timeout: its age is
/// at most the timeout.
pub open spec fn is_live(entry: SessionEntry, ttl_seconds: u64, now: i64) -> bool {
    now - entry.last_active <= ttl_seconds
}

/// The session that a lookup sees: the stored entry while it is live.
pub open spec fn visible_session(
    table: Map<Seq<char>, SessionEntry>,
    session_id: Seq<char>,
    ttl_seconds: u64,
    now: i64,
) -> Option<SessionEntry> {
    if table.contains_key(session_id) && is_live(table[session_id], ttl_seconds, now) {
        Some(table[session_id])
    } else {
        None
    }
}

/// A pin is visible only while its age is within the timeout; past it the
/// entry is invisible, whatever else the table holds.
pub proof fn lemma_session_visibility(
    table: Map<Seq<char>, SessionEntry>,
    session_id: Seq<char>,
    ttl_seconds: u64,
    now: i64,
)
    ensures
        visible_session(table, session_id, ttl_seconds, now) is Some ==> table.contains_key(
            session_id,
        ) && now - table[session_id].last_active <= ttl_seconds,
        table.contains_key(session_id) && now - table[session_id].last_active > ttl_seconds
            ==> visible_session(table, session_id, ttl_seconds, now) is None,
{
}

/// The table without the entries that are no longer live.
pub open spec fn live_sessions(table: Map<Seq<char>, SessionEntry>, ttl_seconds: u64, now: i64)
    -> Map<Seq<char>, SessionEntry> {
    Map::new(
        |k: Seq<char>| table.contains_key(k) && is_live(table[k], ttl_seconds, now),
        |k: Seq<char>| table[k],
    )
}

/// The entry with its last use moved to `now`.
pub open spec fn touched(entry: SessionEntry, now: i64) -> SessionEntry {
    SessionEntry { provider_id: entry.provider_id, model_id: entry.model_id, last_active: now }
}

/// The table after a session was used at `now`: its entry touched, if it
/// has one.
pub open spec fn touch_in(table: Map<Seq<char>, SessionEntry>, session_id: Seq<char>, now: i64)
    -> Map<Seq<char>, SessionEntry> {
    if table.contains_key(session_id) {
        table.insert(session_id, touched(table[session_id], now))
    } else {
        table
    }
}

fn entry_is_live(entry: &SessionEntry, ttl_seconds: u64, now: i64) -> (r: bool)
    ensures
        r == is_live(*entry, ttl_seconds, now),
{
    (now as i128) - (entry.last_active as i128) <= ttl_seconds as i128
}

/// The gateway's state.
pub struct AppState {
    config: Config,
    config_path: String,
    logs: Vec<RequestLog>,
    sessions: Vec<(String, SessionEntry)>,
}

impl AppState {
    #[verifier::type_invariant]
    spec fn well_formed(&self) -> bool {
        &&& self.logs@.len() <= MAX_LOGS
        &&& distinct_keys(self.sessions@)
    }

    /// The live configuration.
    pub closed spec fn current_config(&self) -> Config {
        self.config
    }

    /// Where the configuration is persisted.
    pub closed spec fn persisted_at(&self) -> Seq<char> {
        self.config_path@
    }

    /// The log entries, oldest first.
    pub closed spec fn log_entries(&self) -> Seq<RequestLog> {
        self.logs@
    }

    /// The session table.
    pub closed spec fn sessions(&self) -> Map<Seq<char>, SessionEntry> {
        table_of(self.sessions@)
    }

    /// A store with the loaded configuration, or with the default one where
    /// none could be loaded; no logs and no sessions.
    pub fn new(path: String, loaded: Option<Config>) -> (r: AppState)
        ensures
            r.persisted_at() == path@,
            loaded is Some ==> r.current_config() == loaded->0,
            loaded is None ==> r.current_config()@ == Config::standard()
                && r.current_config().well_formed(),
            r.log_entries() == Seq::<RequestLog>::empty(),
            r.sessions() == Map::<Seq<char>, SessionEntry>::empty(),
    {
        let config = match loaded {
            Some(c) => c,
            None => Config::default(),
        };
        let r = AppState { config, config_path: path, logs: Vec::new(), sessions: Vec::new() };
        assert(r.sessions() =~= Map::<Seq<char>, SessionEntry>::empty());
        r
    }

    /// The live configuration.
    pub fn get_config(&self) -> (r: &Config)
        ensures
            *r == self.current_config(),
    {
        &self.config
    }

    /// The path at which the configuration is persisted.
    pub fn config_path(&self) -> (r: &str)
        ensures
            r@ == self.persisted_at(),
    {
        self.config_path.as_str()
    }

    /// Replaces the live configuration. Persisting it is the caller's part.
    pub fn update_config(&mut self, new_config: Config)
        ensures
            final(self).current_config() == new_config,
            final(self).persisted_at() == old(self).persisted_at(),
            final(self).log_entries() == old(self).log_entries(),
            final(self).sessions() == old(self).sessions(),
    {
        proof {
            use_type_invariant(&*self);
        }
        self.config = new_config;
    }

    /// Appends a log entry; a full store drops its oldest entry first.
    pub fn add_log(&mut self, log: RequestLog)
        ensures
            final(self).log_entries() == ring_push(old(self).log_entries(), log),
            final(self).log_entries().len() <= MAX_LOGS,
            final(self).current_config() == old(self).current_config(),
            final(self).persisted_at() == old(self).persisted_at(),
            final(self).sessions() == old(self).sessions(),
    {
        proof {
            use_type_invariant(&*self);
        }
        let mut logs: Vec<RequestLog> = Vec::new();
        core::mem::swap(&mut self.logs, &mut logs);
        if logs.len() >= MAX_LOGS {
            let _ = logs.remove(0);
            assert(logs@ =~= old(self).logs@.skip(1));
        }
        logs.push(log);
        core::mem::swap(&mut self.logs, &mut logs);
    }

    /// The log entries, oldest first; never more than `MAX_LOGS`.
    pub fn get_logs(&self) -> (r: &Vec<RequestLog>)
        ensures
            r@ == self.log_entries(),
            r@.len() <= MAX_LOGS,
    {
        proof {
            use_type_invariant(self);
        }
        &self.logs
    }

    fn find_session(&self, session_id: &str) -> (r: Option<usize>)
        ensures
            match r {
                Some(i) => i < self.sessions@.len() && self.sessions@[i as int].0@ == session_id@
                    && self.sessions().contains_key(session_id@) && self.sessions()[session_id@]
                    == self.sessions@[i as int].1,
                None => !self.sessions().contains_key(session_id@) && forall|j: int|
                    0 <= j < self.sessions@.len() ==> self.sessions@[j].0@ != session_id@,
            },
    {
        let wanted = session_id.to_owned();
        let mut i: usize = 0;
        while i < self.sessions.len()
            invariant
                i <= self.sessions.len(),
                wanted@ == session_id@,
                key_index_from(self.sessions@, session_id@, 0) == key_index_from(
                    self.sessions@,
                    session_id@,
                    i as int,
                ),
            decreases self.sessions.len() - i,
        {
            if self.sessions[i].0 == wanted {
                return Some(i);
            }
            i += 1;
        }
        proof {
            lemma_key_index(self.sessions@, session_id@, 0);
        }
        None
    }

    /// Looks a session up as of time `now`: the entry, while it is live.
    pub fn get_session_at(&self, session_id: &str, ttl_seconds: u64, now: i64) -> (r: Option<
        SessionEntry,
    >)
        ensures
            r == visible_session(self.sessions(), session_id@, ttl_seconds, now),
    {
        match self.find_session(session_id) {
            Some(i) => {
                if entry_is_live(&self.sessions[i].1, ttl_seconds, now) {
                    Some(self.sessions[i].1.clone())
                } else {
                    None
                }
            },
            None => None,
        }
    }

    /// Looks a session up as of the current time.
    pub fn get_session(&self, session_id: &str, ttl_seconds: u64) -> (r: Option<SessionEntry>)
        ensures
            exists|now: i64| r == visible_session(self.sessions(), session_id@, ttl_seconds, now),
    {
        let now = utc_now();
        self.get_session_at(session_id, ttl_seconds, now)
    }

    /// Records or overwrites a session pin, last used at `now`.
    pub fn set_session_at(
        &mut self,
        session_id: String,
        provider_id: String,
        model_id: String,
        now: i64,
    )
        ensures
            final(self).sessions() == old(self).sessions().insert(
                session_id@,
                SessionEntry { provider_id, model_id, last_active: now },
            ),
            final(self).current_config() == old(self).current_config(),
            final(self).persisted_at() == old(self).persisted_at(),
            final(self).log_entries() == old(self).log_entries(),
    {
        proof {
            use_type_invariant(&*self);
        }
        let entry = SessionEntry { provider_id, model_id, last_active: now };
        let ghost before = self.sessions@;
        let found = self.find_session(session_id.as_str());
        let mut sessions: Vec<(String, SessionEntry)> = Vec::new();
        core::mem::swap(&mut self.sessions, &mut sessions);
        match found {
            Some(i) => {
                proof {
                    lemma_table_overwrite(before, i as int, session_id, entry);
                }
                sessions.set(i, (session_id, entry));
            },
            None => {
                proof {
                    lemma_table_append(before, session_id, entry);
                }
                sessions.push((session_id, entry));
            },
        }
        core::mem::swap(&mut self.sessions, &mut sessions);
    }

    /// Records or overwrites a session pin, last used now.
    pub fn set_session(&mut self, session_id: String, provider_id: String, model_id: String)
        ensures
            exists|now: i64|
                final(self).sessions() == old(self).sessions().insert(
                    session_id@,
                    SessionEntry { provider_id, model_id, last_active: now },
                ),
            final(self).current_config() == old(self).current_config(),
            final(self).persisted_at() == old(self).persisted_at(),
            final(self).log_entries() == old(self).log_entries(),
    {
        let now = utc_now();
        self.set_session_at(session_id, provider_id, model_id, now);
    }

    /// Moves the last use of a session to `now`; an unknown session stays
    /// unknown.
    pub fn touch_session_at(&mut self, session_id: &str, now: i64)
        ensures
            final(self).sessions() == touch_in(old(self).sessions(), session_id@, now),
            final(self).current_config() == old(self).current_config(),
            final(self).persisted_at() == old(self).persisted_at(),
            final(self).log_entries() == old(self).log_entries(),
    {
        proof {
            use_type_invariant(&*self);
        }
        let ghost before = self.sessions@;
        match self.find_session(session_id) {
            Some(i) => {
                let key = self.sessions[i].0.clone();
                let entry = SessionEntry {
                    provider_id: self.sessions[i].1.provider_id.clone(),
                    model_id: self.sessions[i].1.model_id.clone(),
                    last_active: now,
                };
                proof {
                    lemma_table_overwrite(before, i as int, key, entry);
                }
                let mut sessions: Vec<(String, SessionEntry)> = Vec::new();
                core::mem::swap(&mut self.sessions, &mut sessions);
                sessions.set(i, (key, entry));
                core::mem::swap(&mut self.sessions, &mut sessions);
            },
            None => {},
        }
    }

    /// Moves the last use of a session to the current time.
    pub fn touch_session(&mut self, session_id: &str)
        ensures
            exists|now: i64|
                final(self).sessions() == touch_in(old(self).sessions(), session_id@, now),
            final(self).current_config() == old(self).current_config(),
            final(self).persisted_at() == old(self).persisted_at(),
            final(self).log_entries() == old(self).log_entries(),
    {
        let now = utc_now();
        self.touch_session_at(session_id, now);
    }

    /// Drops the sessions that are no longer live at `now`.
    pub fn cleanup_sessions_at(&mut self, ttl_seconds: u64, now: i64)
        ensures
            final(self).sessions() == live_sessions(old(self).sessions(), ttl_seconds, now),
            final(self).current_config() == old(self).current_config(),
            final(self).persisted_at() == old(self).persisted_at(),
            final(self).log_entries() == old(self).log_entries(),
    {
        proof {
            use_type_invariant(&*self);
        }
        let ghost before = self.sessions@;
        let mut sessions: Vec<(String, SessionEntry)> = Vec::new();
        core::mem::swap(&mut self.sessions, &mut sessions);
        let mut kept: Vec<(String, SessionEntry)> = Vec::new();
        let ghost mut source: Seq<int> = Seq::empty();
        while sessions.len() > 0
            invariant
                sessions@ == before.take(sessions@.len() as int),
                sessions@.len() <= before.len(),
                source.len() == kept@.len(),
                forall|a: int|
                    0 <= a < source.len() ==> sessions@.len() <= #[trigger] source[a]
                        < before.len() && kept@[a] == before[source[a]] && is_live(
                        before[source[a]].1,
                        ttl_seconds,
                        now,
                    ),
                forall|a: int, b: int|
                    0 <= a < b < source.len() ==> #[trigger] source[a] > #[trigger] source[b],
                forall|j: int|
                    sessions@.len() <= j < before.len() && is_live(
                        (#[trigger] before[j]).1,
                        ttl_seconds,
                        now,
                    ) ==> exists|a: int| 0 <= a < source.len() && source[a] == j,
            decreases sessions@.len(),
        {
            let ghost n = sessions@.len() - 1;
            let ghost prior = source;
            let last = sessions.pop().unwrap();
            assert(last == before[n]);
            assert(sessions@ =~= before.take(n));
            if entry_is_live(&last.1, ttl_seconds, now) {
                kept.push(last);
                proof {
                    source = source.push(n);
                    assert forall|j: int|
                        n <= j < before.len() && is_live(
                            (#[trigger] before[j]).1,
                            ttl_seconds,
                            now,
                        ) implies exists|a: int| 0 <= a < source.len() && source[a] == j by {
                        if j == n {
                            assert(source[prior.len() as int] == n);
                        } else {
                            let a = choose|a: int| 0 <= a < prior.len() && prior[a] == j;
                            assert(source[a] == j);
                        }
                    }
                }
            } else {
                proof {
                    assert forall|j: int|
                        n <= j < before.len() && is_live(
                            (#[trigger] before[j]).1,
                            ttl_seconds,
                            now,
                        ) implies exists|a: int| 0 <= a < source.len() && source[a] == j by {
                        let a = choose|a: int| 0 <= a < prior.len() && prior[a] == j;
                        assert(source[a] == j);
                    }
                }
            }
        }
        proof {
            let after = kept@;
            let want = live_sessions(table_of(before), ttl_seconds, now);
            assert forall|i: int, j: int| 0 <= i < j < after.len() implies after[i].0@
                != after[j].0@ by {
                assert(source[i] > source[j]);
            }
            lemma_table_entries(before);
            lemma_table_entries(after);
            assert forall|k: Seq<char>| table_of(after).contains_key(k) <==> want.contains_key(
                k,
            ) by {
                if table_of(after).contains_key(k) {
                    let a = key_index_from(after, k, 0)->0;
                    assert(after[a] == before[source[a]]);
                    assert(table_of(before)[before[source[a]].0@] == before[source[a]].1);
                }
                if want.contains_key(k) {
                    let b = key_index_from(before, k, 0)->0;
                    assert(table_of(before)[before[b].0@] == before[b].1);
                    let a = choose|a: int| 0 <= a < source.len() && source[a] == b;
                    assert(after[a].0@ == k);
                }
            }
            assert forall|k: Seq<char>| table_of(after).contains_key(k) implies table_of(
                after,
            )[k] == want[k] by {
                let a = key_index_from(after, k, 0)->0;
                assert(table_of(after)[after[a].0@] == after[a].1);
                assert(after[a] == before[source[a]]);
                assert(table_of(before)[before[source[a]].0@] == before[source[a]].1);
            }
            assert(table_of(after) =~= want);
        }
        core::mem::swap(&mut self.sessions, &mut kept);
    }

    /// Drops the sessions that are no longer live at the current time.
    pub fn cleanup_sessions(&mut self, ttl_seconds: u64)
        ensures
            exists|now: i64|
                final(self).sessions() == live_sessions(old(self).sessions(), ttl_seconds, now),
            final(self).current_config() == old(self).current_config(),
            final(self).persisted_at() == old(self).persisted_at(),
            final(self).log_entries() == old(self).log_entries(),
    {
        let now = utc_now();
        self.cleanup_sessions_at(ttl_seconds, now);
    }

    /// The number of sessions in the table, live or not.
    pub fn session_count(&self) -> (r: usize)
        ensures
            self.sessions().dom().finite(),
            r == self.sessions().dom().len(),
    {
        proof {
            use_type_invariant(self);
            lemma_table_size(self.sessions@);
        }
        self.sessions.len()
    }
}

/// The table of a list with distinct keys has as many keys as the list has
/// entries.
pub proof fn lemma_table_size(entries: Seq<(String, SessionEntry)>)
    requires
        distinct_keys(entries),
    ensures
        table_of(entries).dom().finite(),
        table_of(entries).dom().len() == entries.len(),
    decreases entries.len(),
{
    if entries.len() == 0 {
        assert(table_of(entries).dom() =~= Set::<Seq<char>>::empty());
    } else {
        let front = entries.drop_last();
        let last = entries.last();
        lemma_table_size(front);
        assert forall|k: Seq<char>| #[trigger]
            table_of(entries).dom().contains(k) == table_of(front).dom().insert(last.0@).contains(
                k,
            ) by {
            lemma_key_index(entries, k, 0);
            lemma_key_index(front, k, 0);
            if key_index_from(front, k, 0) is Some {
                assert(entries[key_index_from(front, k, 0)->0] == front[key_index_from(
                    front,
                    k,
                    0,
                )->0]);
            }
            if key_index_from(entries, k, 0) is Some && k != last.0@ {
                assert(entries[key_index_from(entries, k, 0)->0] == front[key_index_from(
                    entries,
                    k,
                    0,
                )->0]);
            }
        }
        assert(table_of(entries).dom() =~= table_of(front).dom().insert(last.0@));
        lemma_key_index(front, last.0@, 0);
        assert(!table_of(front).dom().contains(last.0@)) by {
            if key_index_from(front, last.0@, 0) is Some {
                let j = key_index_from(front, last.0@, 0)->0;
                assert(entries[j] == front[j]);
            }
        }
    }
}

} // verus!
