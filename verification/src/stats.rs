//! The statistics that the gateway derives from its request log. Costs are
//! sums of the logged costs, in millionths of a currency unit; the rounded
//! figures are the total cost in ten-thousandths and mean durations in
//! hundredths of a millisecond.

use vstd::prelude::*;
use vstd::arithmetic::div_mod::lemma_hoist_over_denominator;
use crate::config::Config;
use crate::state::{RequestLog, opt_view};
use crate::text::{str_eq, string_views};

verus! {

/// By what the log is broken down.
#[derive(Debug, Clone, Copy, PartialEq, Eq, Structural)]
pub enum GroupKind {
    /// By provider; entries without one go under `unknown`.
    Provider,
    /// By requested model.
    Model,
    /// By complexity tier; entries without one are left out.
    Tier,
}

/// The group that a log entry belongs to.
pub open spec fn group_key(log: RequestLog, kind: GroupKind) -> Option<Seq<char>> {
    match kind {
        GroupKind::Provider => match log.provider {
            Some(p) => Some(p@),
            None => Some("unknown"@),
        },
        GroupKind::Model => Some(log.model@),
        GroupKind::Tier => opt_view(log.complexity_tier),
    }
}

/// The groups of the first `upto` entries, each once, in the order in which
/// they first occur.
pub open spec fn groups_upto(logs: Seq<RequestLog>, kind: GroupKind, upto: int) -> Seq<Seq<char>>
    decreases upto,
{
    if upto <= 0 {
        Seq::empty()
    } else {
        let before = groups_upto(logs, kind, upto - 1);
        match group_key(logs[upto - 1], kind) {
            Some(k) => if before.contains(k) {
                before
            } else {
                before.push(k)
            },
            None => before,
        }
    }
}

/// The groups of a log.
pub open spec fn groups_of(logs: Seq<RequestLog>, kind: GroupKind) -> Seq<Seq<char>> {
    groups_upto(logs, kind, logs.len() as int)
}

/// A group of a breakdown.
pub struct GroupName {
    pub kind: GroupKind,
    pub name: Seq<char>,
}

/// Which entries a figure is taken over. Every part that is set must hold
/// of an entry.
pub struct LogFilter {
    pub status: Option<Seq<char>>,
    pub group: Option<GroupName>,
    pub agentic: bool,
    pub pinned: bool,
}

/// Whether a filter lets an entry through.
pub open spec fn selects(filter: LogFilter, log: RequestLog) -> bool {
    &&& filter.status is Some ==> log.status@ == filter.status->0
    &&& filter.group is Some ==> group_key(log, filter.group->0.kind) == Some(
        filter.group->0.name,
    )
    &&& filter.agentic ==> log.agentic_mode == Some(true)
    &&& filter.pinned ==> log.session_pinned == Some(true)
}

/// The filter that lets every entry through.
pub open spec fn every_entry() -> LogFilter {
    LogFilter { status: None, group: None, agentic: false, pinned: false }
}

/// The filter that lets the entries of one status through.
pub open spec fn with_status(status: Seq<char>) -> LogFilter {
    LogFilter { status: Some(status), group: None, agentic: false, pinned: false }
}

/// The filter that lets the entries of one group through.
pub open spec fn in_group(kind: GroupKind, name: Seq<char>) -> LogFilter {
    LogFilter { status: None, group: Some(GroupName { kind, name }), agentic: false, pinned: false }
}

/// The filter that lets the successes of one group through.
pub open spec fn successes_in_group(kind: GroupKind, name: Seq<char>) -> LogFilter {
    LogFilter {
        status: Some("success"@),
        group: Some(GroupName { kind, name }),
        agentic: false,
        pinned: false,
    }
}

/// How many of the first `upto` entries the filter lets through.
pub open spec fn tally_upto(logs: Seq<RequestLog>, filter: LogFilter, upto: int) -> nat
    decreases upto,
{
    if upto <= 0 {
        0
    } else {
        tally_upto(logs, filter, upto - 1) + if selects(filter, logs[upto - 1]) {
            1nat
        } else {
            0nat
        }
    }
}

/// How many entries the filter lets through.
pub open spec fn tally_of(logs: Seq<RequestLog>, filter: LogFilter) -> nat {
    tally_upto(logs, filter, logs.len() as int)
}

/// The cost of an entry; zero where none was estimated.
pub open spec fn cost_in(log: RequestLog) -> nat {
    match log.estimated_cost {
        Some(c) => c as nat,
        None => 0,
    }
}

/// The summed cost of those of the first `upto` entries that the filter
/// lets through.
pub open spec fn cost_upto(logs: Seq<RequestLog>, filter: LogFilter, upto: int) -> nat
    decreases upto,
{
    if upto <= 0 {
        0
    } else {
        cost_upto(logs, filter, upto - 1) + if selects(filter, logs[upto - 1]) {
            cost_in(logs[upto - 1])
        } else {
            0nat
        }
    }
}

/// The summed cost of the entries that the filter lets through.
pub open spec fn cost_sum_of(logs: Seq<RequestLog>, filter: LogFilter) -> nat {
    cost_upto(logs, filter, logs.len() as int)
}

/// The summed duration of those of the first `upto` entries that the filter
/// lets through, in milliseconds.
pub open spec fn duration_upto(logs: Seq<RequestLog>, filter: LogFilter, upto: int) -> nat
    decreases upto,
{
    if upto <= 0 {
        0
    } else {
        duration_upto(logs, filter, upto - 1) + if selects(filter, logs[upto - 1]) {
            logs[upto - 1].duration_ms as nat
        } else {
            0nat
        }
    }
}

/// The summed duration of the entries that the filter lets through.
pub open spec fn duration_sum_of(logs: Seq<RequestLog>, filter: LogFilter) -> nat {
    duration_upto(logs, filter, logs.len() as int)
}

/// The mean of `count` values that sum to `total`, in hundredths, rounded
/// to the nearest, halves up; zero for no value.
pub open spec fn mean_hundredths(total: nat, count: nat) -> nat {
    if count == 0 {
        0
    } else {
        ((200 * total + count) / (2 * count)) as nat
    }
}

/// An amount in millionths as ten-thousandths, rounded to the nearest,
/// halves up.
pub open spec fn rounded_ten_thousandths(millionths: nat) -> nat {
    (millionths + 50) / 100
}

/// A group of a breakdown, as the code holds it.
pub struct GroupPick<'a> {
    pub kind: GroupKind,
    pub name: &'a str,
}

/// What a figure is taken over, as the code holds it.
pub struct Criteria<'a> {
    pub status: Option<&'a str>,
    pub group: Option<GroupPick<'a>>,
    pub agentic: bool,
    pub pinned: bool,
}

impl<'a> View for Criteria<'a> {
    type V = LogFilter;

    open spec fn view(&self) -> LogFilter {
        LogFilter {
            status: match self.status {
                Some(s) => Some(s@),
                None => None,
            },
            group: match self.group {
                Some(g) => Some(GroupName { kind: g.kind, name: g.name@ }),
                None => None,
            },
            agentic: self.agentic,
            pinned: self.pinned,
        }
    }
}

fn in_named_group(log: &RequestLog, kind: GroupKind, name: &str) -> (r: bool)
    ensures
        r == (group_key(*log, kind) == Some(name@)),
{
    match kind {
        GroupKind::Provider => match &log.provider {
            Some(p) => str_eq(p.as_str(), name),
            None => str_eq("unknown", name),
        },
        GroupKind::Model => str_eq(log.model.as_str(), name),
        GroupKind::Tier => match &log.complexity_tier {
            Some(t) => str_eq(t.as_str(), name),
            None => false,
        },
    }
}

fn picks(criteria: &Criteria, log: &RequestLog) -> (r: bool)
    ensures
        r == selects(criteria@, *log),
{
    match criteria.status {
        Some(s) => {
            if !str_eq(log.status.as_str(), s) {
                return false;
            }
        },
        None => {},
    }
    match &criteria.group {
        Some(g) => {
            if !in_named_group(log, g.kind, g.name) {
                return false;
            }
        },
        None => {},
    }
    if criteria.agentic {
        match log.agentic_mode {
            Some(true) => {},
            _ => {
                return false;
            },
        }
    }
    if criteria.pinned {
        match log.session_pinned {
            Some(true) => {},
            _ => {
                return false;
            },
        }
    }
    true
}

/// Counts the entries that the criteria let through.
pub fn tally(logs: &Vec<RequestLog>, criteria: &Criteria) -> (n: usize)
    ensures
        n == tally_of(logs@, criteria@),
{
    let mut n: usize = 0;
    let mut i: usize = 0;
    while i < logs.len()
        invariant
            i <= logs.len(),
            n <= i,
            n == tally_upto(logs@, criteria@, i as int),
        decreases logs.len() - i,
    {
        if picks(criteria, &logs[i]) {
            n += 1;
        }
        i += 1;
    }
    n
}

/// Sums the costs of the entries that the criteria let through.
pub fn cost_sum(logs: &Vec<RequestLog>, criteria: &Criteria) -> (sum: u128)
    ensures
        sum == cost_sum_of(logs@, criteria@),
        sum <= logs@.len() * u64::MAX,
{
    let mut sum: u128 = 0;
    let mut i: usize = 0;
    while i < logs.len()
        invariant
            i <= logs.len(),
            sum <= i * u64::MAX,
            sum == cost_upto(logs@, criteria@, i as int),
        decreases logs.len() - i,
    {
        assert((i + 1) * u64::MAX == i * u64::MAX + u64::MAX) by (nonlinear_arith);
        assert(i * u64::MAX <= usize::MAX * u64::MAX) by (nonlinear_arith)
            requires
                i <= usize::MAX,
        ;
        if picks(criteria, &logs[i]) {
            match logs[i].estimated_cost {
                Some(c) => {
                    sum += c as u128;
                },
                None => {},
            }
        }
        i += 1;
    }
    sum
}

/// Sums the durations of the entries that the criteria let through.
pub fn duration_sum(logs: &Vec<RequestLog>, criteria: &Criteria) -> (sum: u128)
    ensures
        sum == duration_sum_of(logs@, criteria@),
        sum <= logs@.len() * u64::MAX,
{
    let mut sum: u128 = 0;
    let mut i: usize = 0;
    while i < logs.len()
        invariant
            i <= logs.len(),
            sum <= i * u64::MAX,
            sum == duration_upto(logs@, criteria@, i as int),
        decreases logs.len() - i,
    {
        assert((i + 1) * u64::MAX == i * u64::MAX + u64::MAX) by (nonlinear_arith);
        assert(i * u64::MAX <= usize::MAX * u64::MAX) by (nonlinear_arith)
            requires
                i <= usize::MAX,
        ;
        if picks(criteria, &logs[i]) {
            sum += logs[i].duration_ms as u128;
        }
        i += 1;
    }
    sum
}

fn mean(total: u128, count: usize) -> (r: u128)
    requires
        total <= count * u64::MAX,
    ensures
        r == mean_hundredths(total as nat, count as nat),
{
    if count == 0 {
        return 0;
    }
    let n = count as u128;
    let whole = total / n;
    let rest = total % n;
    assert(whole <= u64::MAX) by (nonlinear_arith)
        requires
            whole == total / n,
            total <= n * u64::MAX,
            n > 0,
    ;
    proof {
        let x = 200 * rest + n;
        let d = (2 * n) as nat;
        lemma_hoist_over_denominator(x as int, 100 * whole as int, d);
        assert(total == whole * n + rest) by (nonlinear_arith)
            requires
                whole == total / n,
                rest == total % n,
                n > 0,
        ;
        assert(x + (100 * whole) * d == 200 * total + n) by (nonlinear_arith)
            requires
                x == 200 * rest + n,
                d == 2 * n,
                total == whole * n + rest,
        ;
    }
    whole * 100 + (200 * rest + n) / (2 * n)
}

fn has_name(names: &Vec<String>, name: &str) -> (r: bool)
    ensures
        r == string_views(names@).contains(name@),
{
    let mut i: usize = 0;
    while i < names.len()
        invariant
            i <= names.len(),
            forall|j: int| 0 <= j < i ==> string_views(names@)[j] != name@,
        decreases names.len() - i,
    {
        if str_eq(names[i].as_str(), name) {
            assert(string_views(names@)[i as int] == name@);
            return true;
        }
        i += 1;
    }
    false
}

/// Lists the groups of a log, each once, in the order in which they first
/// occur.
pub fn group_names(logs: &Vec<RequestLog>, kind: GroupKind) -> (names: Vec<String>)
    ensures
        string_views(names@) == groups_of(logs@, kind),
{
    let mut names: Vec<String> = Vec::new();
    let mut i: usize = 0;
    while i < logs.len()
        invariant
            i <= logs.len(),
            string_views(names@) =~= groups_upto(logs@, kind, i as int),
        decreases logs.len() - i,
    {
        let log = &logs[i];
        let key: Option<String> = match kind {
            GroupKind::Provider => match &log.provider {
                Some(p) => Some(p.clone()),
                None => Some("unknown".to_owned()),
            },
            GroupKind::Model => Some(log.model.clone()),
            GroupKind::Tier => match &log.complexity_tier {
                Some(t) => Some(t.clone()),
                None => None,
            },
        };
        assert(opt_view(key) == group_key(*log, kind));
        match key {
            Some(k) => {
                if !has_name(&names, k.as_str()) {
                    let ghost before = string_views(names@);
                    names.push(k);
                    assert(string_views(names@) =~= before.push(k@));
                }
            },
            None => {},
        }
        i += 1;
    }
    names
}


/// The figures of one provider.
#[derive(Debug)]
pub struct ProviderStats {
    pub name: String,
    pub requests: usize,
    pub successful: usize,
    /// The requests that were no success.
    pub failed: usize,
    /// In millionths of a currency unit.
    pub total_cost: u128,
    /// In hundredths of a millisecond.
    pub avg_duration_ms: u128,
}

/// The figures of one requested model.
#[derive(Debug)]
pub struct ModelStats {
    pub model: String,
    pub requests: usize,
    /// In millionths of a currency unit.
    pub total_cost: u128,
}

/// The number of requests of one complexity tier.
#[derive(Debug)]
pub struct TierStats {
    pub tier: String,
    pub count: usize,
}

/// A `ProviderStats` as mathematical values.
pub struct ProviderStatsView {
    pub name: Seq<char>,
    pub requests: nat,
    pub successful: nat,
    pub failed: int,
    pub total_cost: nat,
    pub avg_duration_ms: nat,
}

impl View for ProviderStats {
    type V = ProviderStatsView;

    open spec fn view(&self) -> ProviderStatsView {
        ProviderStatsView {
            name: self.name@,
            requests: self.requests as nat,
            successful: self.successful as nat,
            failed: self.failed as int,
            total_cost: self.total_cost as nat,
            avg_duration_ms: self.avg_duration_ms as nat,
        }
    }
}

/// A `ModelStats` as mathematical values.
pub struct ModelStatsView {
    pub model: Seq<char>,
    pub requests: nat,
    pub total_cost: nat,
}

impl View for ModelStats {
    type V = ModelStatsView;

    open spec fn view(&self) -> ModelStatsView {
        ModelStatsView {
            model: self.model@,
            requests: self.requests as nat,
            total_cost: self.total_cost as nat,
        }
    }
}

/// A `TierStats` as mathematical values.
pub struct TierStatsView {
    pub tier: Seq<char>,
    pub count: nat,
}

impl View for TierStats {
    type V = TierStatsView;

    open spec fn view(&self) -> TierStatsView {
        TierStatsView { tier: self.tier@, count: self.count as nat }
    }
}

/// The figures of the provider `name` in a log.
pub open spec fn provider_stats_of(logs: Seq<RequestLog>, name: Seq<char>) -> ProviderStatsView {
    let all = in_group(GroupKind::Provider, name);
    ProviderStatsView {
        name,
        requests: tally_of(logs, all),
        successful: tally_of(logs, successes_in_group(GroupKind::Provider, name)),
        failed: tally_of(logs, all) - tally_of(
            logs,
            successes_in_group(GroupKind::Provider, name),
        ),
        total_cost: cost_sum_of(logs, all),
        avg_duration_ms: mean_hundredths(duration_sum_of(logs, all), tally_of(logs, all)),
    }
}

/// The figures of the model `name` in a log.
pub open spec fn model_stats_of(logs: Seq<RequestLog>, name: Seq<char>) -> ModelStatsView {
    ModelStatsView {
        model: name,
        requests: tally_of(logs, in_group(GroupKind::Model, name)),
        total_cost: cost_sum_of(logs, in_group(GroupKind::Model, name)),
    }
}

/// The figures of the tier `name` in a log.
pub open spec fn tier_stats_of(logs: Seq<RequestLog>, name: Seq<char>) -> TierStatsView {
    TierStatsView { tier: name, count: tally_of(logs, in_group(GroupKind::Tier, name)) }
}

/// The statistics of the gateway.
#[derive(Debug)]
pub struct Stats<'a> {
    pub requests: usize,
    /// The requests logged as `success`.
    pub successful: usize,
    /// The requests logged as `error`.
    pub failed: usize,
    /// In ten-thousandths of a currency unit, rounded.
    pub total_cost: u128,
    /// In hundredths of a millisecond, rounded.
    pub avg_duration_ms: u128,
    pub active_profile: String,
    pub providers: Vec<ProviderStats>,
    pub models: Vec<ModelStats>,
    pub complexity_tiers: Vec<TierStats>,
    /// The last ten requests, newest first.
    pub recent_requests: Vec<&'a RequestLog>,
    pub agentic_count: usize,
    pub session_pinned_count: usize,
    pub active_sessions: usize,
}

/// How many requests the list of recent requests holds at most.
pub const RECENT_REQUESTS: usize = 10;

/// A narrower filter never lets more entries through, and the entries that
/// it lets through never last longer in sum.
pub proof fn lemma_tally_narrower(
    logs: Seq<RequestLog>,
    narrow: LogFilter,
    wide: LogFilter,
    upto: int,
)
    requires
        forall|log: RequestLog| selects(narrow, log) ==> selects(wide, log),
    ensures
        tally_upto(logs, narrow, upto) <= tally_upto(logs, wide, upto),
    decreases upto,
{
    if upto > 0 {
        lemma_tally_narrower(logs, narrow, wide, upto - 1);
    }
}

/// The summed duration of the selected entries is at most `u64::MAX` for
/// each of them.
pub proof fn lemma_duration_bound(logs: Seq<RequestLog>, filter: LogFilter, upto: int)
    ensures
        duration_upto(logs, filter, upto) <= tally_upto(logs, filter, upto) * u64::MAX,
    decreases upto,
{
    if upto > 0 {
        lemma_duration_bound(logs, filter, upto - 1);
        assert((tally_upto(logs, filter, upto - 1) + 1) * u64::MAX == tally_upto(
            logs,
            filter,
            upto - 1,
        ) * u64::MAX + u64::MAX) by (nonlinear_arith);
    }
}

fn provider_stats(logs: &Vec<RequestLog>, name: &String) -> (r: ProviderStats)
    ensures
        r@ == provider_stats_of(logs@, name@),
{
    let all = Criteria {
        status: None,
        group: Some(GroupPick { kind: GroupKind::Provider, name: name.as_str() }),
        agentic: false,
        pinned: false,
    };
    let good = Criteria {
        status: Some("success"),
        group: Some(GroupPick { kind: GroupKind::Provider, name: name.as_str() }),
        agentic: false,
        pinned: false,
    };
    assert(all@ == in_group(GroupKind::Provider, name@));
    assert(good@ == successes_in_group(GroupKind::Provider, name@));
    let requests = tally(logs, &all);
    let successful = tally(logs, &good);
    proof {
        lemma_tally_narrower(logs@, good@, all@, logs@.len() as int);
        lemma_duration_bound(logs@, all@, logs@.len() as int);
    }
    let total_cost = cost_sum(logs, &all);
    let total_duration = duration_sum(logs, &all);
    ProviderStats {
        name: name.clone(),
        requests,
        successful,
        failed: requests - successful,
        total_cost,
        avg_duration_ms: mean(total_duration, requests),
    }
}

fn model_stats(logs: &Vec<RequestLog>, name: &String) -> (r: ModelStats)
    ensures
        r@ == model_stats_of(logs@, name@),
{
    let all = Criteria {
        status: None,
        group: Some(GroupPick { kind: GroupKind::Model, name: name.as_str() }),
        agentic: false,
        pinned: false,
    };
    assert(all@ == in_group(GroupKind::Model, name@));
    ModelStats { model: name.clone(), requests: tally(logs, &all), total_cost: cost_sum(logs, &all) }
}

fn tier_stats(logs: &Vec<RequestLog>, name: &String) -> (r: TierStats)
    ensures
        r@ == tier_stats_of(logs@, name@),
{
    let all = Criteria {
        status: None,
        group: Some(GroupPick { kind: GroupKind::Tier, name: name.as_str() }),
        agentic: false,
        pinned: false,
    };
    assert(all@ == in_group(GroupKind::Tier, name@));
    TierStats { tier: name.clone(), count: tally(logs, &all) }
}

/// The views of a list of provider figures.
pub open spec fn provider_stats_views(list: Seq<ProviderStats>) -> Seq<ProviderStatsView> {
    Seq::new(list.len(), |i: int| list[i]@)
}

/// The views of a list of model figures.
pub open spec fn model_stats_views(list: Seq<ModelStats>) -> Seq<ModelStatsView> {
    Seq::new(list.len(), |i: int| list[i]@)
}

/// The views of a list of tier figures.
pub open spec fn tier_stats_views(list: Seq<TierStats>) -> Seq<TierStatsView> {
    Seq::new(list.len(), |i: int| list[i]@)
}

/// The positions of the recent requests in a log of `len` entries: the last
/// ten, the last one first.
pub open spec fn recent_positions(len: nat) -> Seq<int> {
    Seq::new(
        if len < RECENT_REQUESTS {
            len
        } else {
            RECENT_REQUESTS as nat
        },
        |k: int| len - 1 - k,
    )
}

/// Derives the statistics from the log.
pub fn get_stats<'a>(logs: &'a Vec<RequestLog>, config: &Config, active_sessions: usize) -> (s:
    Stats<'a>)
    ensures
        s.requests == logs@.len(),
        s.successful == tally_of(logs@, with_status("success"@)),
        s.failed == tally_of(logs@, with_status("error"@)),
        s.total_cost == rounded_ten_thousandths(cost_sum_of(logs@, every_entry())),
        s.avg_duration_ms == mean_hundredths(
            duration_sum_of(logs@, every_entry()),
            logs@.len(),
        ),
        s.active_profile@ == config.active_profile@,
        provider_stats_views(s.providers@) == Seq::new(
            groups_of(logs@, GroupKind::Provider).len(),
            |k: int| provider_stats_of(logs@, groups_of(logs@, GroupKind::Provider)[k]),
        ),
        model_stats_views(s.models@) == Seq::new(
            groups_of(logs@, GroupKind::Model).len(),
            |k: int| model_stats_of(logs@, groups_of(logs@, GroupKind::Model)[k]),
        ),
        tier_stats_views(s.complexity_tiers@) == Seq::new(
            groups_of(logs@, GroupKind::Tier).len(),
            |k: int| tier_stats_of(logs@, groups_of(logs@, GroupKind::Tier)[k]),
        ),
        s.recent_requests@.len() == recent_positions(logs@.len()).len(),
        forall|k: int|
            0 <= k < s.recent_requests@.len() ==> *(#[trigger] s.recent_requests@[k])
                == logs@[recent_positions(logs@.len())[k]],
        s.agentic_count == tally_of(
            logs@,
            LogFilter { status: None, group: None, agentic: true, pinned: false },
        ),
        s.session_pinned_count == tally_of(
            logs@,
            LogFilter { status: None, group: None, agentic: false, pinned: true },
        ),
        s.active_sessions == active_sessions,
{
    let every = Criteria { status: None, group: None, agentic: false, pinned: false };
    let good = Criteria { status: Some("success"), group: None, agentic: false, pinned: false };
    let bad = Criteria { status: Some("error"), group: None, agentic: false, pinned: false };
    let agentic = Criteria { status: None, group: None, agentic: true, pinned: false };
    let pinned = Criteria { status: None, group: None, agentic: false, pinned: true };
    assert(every@ == every_entry());
    assert(good@ == with_status("success"@));
    assert(bad@ == with_status("error"@));
    let requests = logs.len();
    let total_cost = cost_sum(logs, &every);
    let total_duration = duration_sum(logs, &every);
    assert(total_cost <= usize::MAX * u64::MAX) by (nonlinear_arith)
        requires
            total_cost <= requests * u64::MAX,
            requests <= usize::MAX,
    ;

    let provider_names = group_names(logs, GroupKind::Provider);
    let mut providers: Vec<ProviderStats> = Vec::new();
    let mut i: usize = 0;
    while i < provider_names.len()
        invariant
            i <= provider_names.len(),
            string_views(provider_names@) == groups_of(logs@, GroupKind::Provider),
            provider_stats_views(providers@) =~= Seq::new(
                i as nat,
                |k: int| provider_stats_of(logs@, groups_of(logs@, GroupKind::Provider)[k]),
            ),
        decreases provider_names.len() - i,
    {
        let ghost before = provider_stats_views(providers@);
        let item = provider_stats(logs, &provider_names[i]);
        assert(string_views(provider_names@)[i as int] == provider_names@[i as int]@);
        providers.push(item);
        assert(provider_stats_views(providers@) =~= before.push(item@));
        i += 1;
    }

    let model_names = group_names(logs, GroupKind::Model);
    let mut models: Vec<ModelStats> = Vec::new();
    let mut i: usize = 0;
    while i < model_names.len()
        invariant
            i <= model_names.len(),
            string_views(model_names@) == groups_of(logs@, GroupKind::Model),
            model_stats_views(models@) =~= Seq::new(
                i as nat,
                |k: int| model_stats_of(logs@, groups_of(logs@, GroupKind::Model)[k]),
            ),
        decreases model_names.len() - i,
    {
        let ghost before = model_stats_views(models@);
        let item = model_stats(logs, &model_names[i]);
        assert(string_views(model_names@)[i as int] == model_names@[i as int]@);
        models.push(item);
        assert(model_stats_views(models@) =~= before.push(item@));
        i += 1;
    }

    let tier_names = group_names(logs, GroupKind::Tier);
    let mut complexity_tiers: Vec<TierStats> = Vec::new();
    let mut i: usize = 0;
    while i < tier_names.len()
        invariant
            i <= tier_names.len(),
            string_views(tier_names@) == groups_of(logs@, GroupKind::Tier),
            tier_stats_views(complexity_tiers@) =~= Seq::new(
                i as nat,
                |k: int| tier_stats_of(logs@, groups_of(logs@, GroupKind::Tier)[k]),
            ),
        decreases tier_names.len() - i,
    {
        let ghost before = tier_stats_views(complexity_tiers@);
        let item = tier_stats(logs, &tier_names[i]);
        assert(string_views(tier_names@)[i as int] == tier_names@[i as int]@);
        complexity_tiers.push(item);
        assert(tier_stats_views(complexity_tiers@) =~= before.push(item@));
        i += 1;
    }

    let shown = if requests < RECENT_REQUESTS {
        requests
    } else {
        RECENT_REQUESTS
    };
    let mut recent_requests: Vec<&'a RequestLog> = Vec::new();
    let mut k: usize = 0;
    while k < shown
        invariant
            k <= shown,
            shown <= requests,
            requests == logs@.len(),
            recent_requests@.len() == k,
            forall|j: int|
                0 <= j < k ==> *(#[trigger] recent_requests@[j]) == logs@[requests - 1 - j],
        decreases shown - k,
    {
        recent_requests.push(&logs[requests - 1 - k]);
        k += 1;
    }

    Stats {
        requests,
        successful: tally(logs, &good),
        failed: tally(logs, &bad),
        total_cost: (total_cost + 50) / 100,
        avg_duration_ms: mean(total_duration, requests),
        active_profile: config.active_profile.clone(),
        providers,
        models,
        complexity_tiers,
        recent_requests,
        agentic_count: tally(logs, &agentic),
        session_pinned_count: tally(logs, &pinned),
        active_sessions,
    }
}

} // verus!
