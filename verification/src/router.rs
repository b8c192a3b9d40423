//! The router: from a profile, a complexity tier and the agentic flag to the
//! effective model and the ordered list of candidate providers.

use vstd::prelude::*;
use crate::config::{
    Config, Model, ModelMapping, Provider, ProviderView, RoutingProfile, Tier, find_mapping,
    lookup_mapping,
};
use crate::scorer::ComplexityTier;
use crate::text::{chars_of, occurs_at, starts_with_chars, str_eq};

verus! {

/// The prefix of a virtual model id that names a profile.
pub const ROUTER_PREFIX: &'static str = "router/";

/// The profile that a virtual model id names: what follows the prefix, if
/// the id begins with it.
pub open spec fn router_profile(model_id: Seq<char>) -> Option<Seq<char>> {
    if occurs_at(model_id, ROUTER_PREFIX@, 0) {
        Some(model_id.subrange(ROUTER_PREFIX@.len() as int, model_id.len() as int))
    } else {
        None
    }
}

/// The key under which a profile's mapping tables hold a complexity tier.
pub open spec fn tier_key(c: ComplexityTier) -> Seq<char> {
    match c {
        ComplexityTier::Simple => "simple"@,
        ComplexityTier::Medium => "medium"@,
        ComplexityTier::Complex => "complex"@,
        ComplexityTier::Reasoning => "reasoning"@,
    }
}

/// The key under which a profile's mapping tables hold a complexity tier.
pub fn tier_key_of(c: ComplexityTier) -> (r: &'static str)
    ensures
        r@ == tier_key(c),
{
    match c {
        ComplexityTier::Simple => "simple",
        ComplexityTier::Medium => "medium",
        ComplexityTier::Complex => "complex",
        ComplexityTier::Reasoning => "reasoning",
    }
}

/// The provider tiers that are eligible for a complexity tier.
pub open spec fn eligible_tiers(c: ComplexityTier) -> Seq<Tier> {
    match c {
        ComplexityTier::Simple => seq![Tier::Free, Tier::Cheap],
        ComplexityTier::Medium => seq![Tier::Cheap, Tier::Free, Tier::PayPerRequest],
        ComplexityTier::Complex => seq![Tier::Subscription, Tier::Cheap, Tier::PayPerRequest],
        ComplexityTier::Reasoning => seq![Tier::Subscription, Tier::PayPerRequest],
    }
}

/// Maps a complexity tier to the provider tiers eligible for it.
pub fn default_provider_tiers_for_complexity(complexity: ComplexityTier) -> (r: Vec<Tier>)
    ensures
        r@ == eligible_tiers(complexity),
{
    let r = match complexity {
        ComplexityTier::Simple => vec![Tier::Free, Tier::Cheap],
        ComplexityTier::Medium => vec![Tier::Cheap, Tier::Free, Tier::PayPerRequest],
        ComplexityTier::Complex => vec![Tier::Subscription, Tier::Cheap, Tier::PayPerRequest],
        ComplexityTier::Reasoning => vec![Tier::Subscription, Tier::PayPerRequest],
    };
    assert(r@ =~= eligible_tiers(complexity));
    r
}

/// The position of the first profile named `name` at or after `from`.
pub open spec fn profile_index_from(profiles: Seq<RoutingProfile>, name: Seq<char>, from: int)
    -> Option<int>
    decreases profiles.len() - from,
{
    if from < 0 || from >= profiles.len() {
        None
    } else if profiles[from].name@ == name {
        Some(from)
    } else {
        profile_index_from(profiles, name, from + 1)
    }
}

/// The name of the profile that a request asks for: the override if there is
/// one, else the active profile.
pub open spec fn wanted_profile(config: Config, profile_override: Option<Seq<char>>) -> Seq<char> {
    match profile_override {
        Some(name) => name,
        None => config.active_profile@,
    }
}

/// The position of the profile that governs a request: the first profile
/// with the wanted name; the first profile of the list if none has it;
/// nothing if the list is empty.
pub open spec fn chosen_profile(config: Config, profile_override: Option<Seq<char>>) -> Option<
    int,
> {
    match profile_index_from(config.profiles@, wanted_profile(config, profile_override), 0) {
        Some(i) => Some(i),
        None => if config.profiles@.len() > 0 {
            Some(0)
        } else {
            None
        },
    }
}

/// The mapping table that counts: the agentic one for an agentic request,
/// unless it is empty.
pub open spec fn mapping_source(profile: RoutingProfile, use_agentic: bool) -> Seq<
    (String, ModelMapping),
> {
    if use_agentic && profile.agentic_model_mapping@.len() > 0 {
        profile.agentic_model_mapping@
    } else {
        profile.model_mapping@
    }
}

/// The mapping that a profile holds for a request's complexity tier.
pub open spec fn tier_mapping(
    profile: RoutingProfile,
    complexity: Option<ComplexityTier>,
    use_agentic: bool,
) -> Option<ModelMapping> {
    match complexity {
        Some(c) => find_mapping(mapping_source(profile, use_agentic), tier_key(c)),
        None => None,
    }
}

/// The effective model under a profile: the mapped model if the profile maps
/// the tier to a model with a non-empty id, else the requested model.
pub open spec fn mapped_model(
    profile: RoutingProfile,
    model_id: Seq<char>,
    complexity: Option<ComplexityTier>,
    use_agentic: bool,
) -> Seq<char> {
    match tier_mapping(profile, complexity, use_agentic) {
        Some(m) => if m.model_id@.len() > 0 {
            m.model_id@
        } else {
            model_id
        },
        None => model_id,
    }
}

/// The provider that a profile pins the tier to, if the mapping names one.
pub open spec fn pinned_provider(
    profile: RoutingProfile,
    complexity: Option<ComplexityTier>,
    use_agentic: bool,
) -> Option<Seq<char>> {
    match tier_mapping(profile, complexity, use_agentic) {
        Some(m) => if m.provider_id@.len() > 0 {
            Some(m.provider_id@)
        } else {
            None
        },
        None => None,
    }
}

/// The effective model of a request: the requested model where no profile
/// governs it.
pub open spec fn effective_model(
    config: Config,
    model_id: Seq<char>,
    complexity: Option<ComplexityTier>,
    profile_override: Option<Seq<char>>,
    use_agentic: bool,
) -> Seq<char> {
    match chosen_profile(config, profile_override) {
        Some(i) => mapped_model(config.profiles@[i], model_id, complexity, use_agentic),
        None => model_id,
    }
}

/// The allowed tiers among the first `upto` that are eligible, in the
/// profile's order.
pub open spec fn meet_upto(allowed: Seq<Tier>, eligible: Seq<Tier>, upto: int) -> Seq<Tier>
    decreases upto,
{
    if upto <= 0 {
        Seq::empty()
    } else if eligible.contains(allowed[upto - 1]) {
        meet_upto(allowed, eligible, upto - 1).push(allowed[upto - 1])
    } else {
        meet_upto(allowed, eligible, upto - 1)
    }
}

/// The tiers that count for a request: the profile's allowed tiers that are
/// eligible for the complexity tier, in the profile's order; all allowed
/// tiers where none is eligible or no complexity tier is given.
pub open spec fn effective_tiers(allowed: Seq<Tier>, complexity: Option<ComplexityTier>) -> Seq<
    Tier,
> {
    match complexity {
        Some(c) => {
            let meet = meet_upto(allowed, eligible_tiers(c), allowed.len() as int);
            if meet.len() == 0 {
                allowed
            } else {
                meet
            }
        },
        None => allowed,
    }
}

/// The position of the first model with id `id` at or after `from`.
pub open spec fn model_index_from(models: Seq<Model>, id: Seq<char>, from: int) -> Option<int>
    decreases models.len() - from,
{
    if from < 0 || from >= models.len() {
        None
    } else if models[from].id@ == id {
        Some(from)
    } else {
        model_index_from(models, id, from + 1)
    }
}

/// Whether a provider offers a model with id `id`.
pub open spec fn serves(p: Provider, id: Seq<char>) -> bool {
    model_index_from(p.models@, id, 0) is Some
}

/// Finds the first model of a provider with the given id.
pub fn find_model<'a>(provider: &'a Provider, id: &str) -> (r: Option<&'a Model>)
    ensures
        match r {
            Some(m) => model_index_from(provider.models@, id@, 0) is Some && *m
                == provider.models@[model_index_from(provider.models@, id@, 0)->0],
            None => !serves(*provider, id@),
        },
{
    let wanted = id.to_owned();
    let mut i: usize = 0;
    while i < provider.models.len()
        invariant
            i <= provider.models.len(),
            wanted@ == id@,
            model_index_from(provider.models@, id@, 0) == model_index_from(
                provider.models@,
                id@,
                i as int,
            ),
        decreases provider.models.len() - i,
    {
        if provider.models[i].id == wanted {
            return Some(&provider.models[i]);
        }
        i += 1;
    }
    None
}

/// The position of the first occurrence of a tier at or after `from`.
pub open spec fn tier_index_from(tiers: Seq<Tier>, t: Tier, from: int) -> Option<int>
    decreases tiers.len() - from,
{
    if from < 0 || from >= tiers.len() {
        None
    } else if tiers[from] == t {
        Some(from)
    } else {
        tier_index_from(tiers, t, from + 1)
    }
}

fn tier_position(tiers: &Vec<Tier>, t: Tier) -> (r: Option<usize>)
    ensures
        match r {
            Some(i) => tier_index_from(tiers@, t, 0) == Some(i as int),
            None => tier_index_from(tiers@, t, 0) is None,
        },
        r is Some <==> tiers@.contains(t),
{
    let mut i: usize = 0;
    while i < tiers.len()
        invariant
            i <= tiers.len(),
            tier_index_from(tiers@, t, 0) == tier_index_from(tiers@, t, i as int),
            forall|j: int| 0 <= j < i ==> tiers@[j] != t,
        decreases tiers.len() - i,
    {
        if tiers[i] == t {
            return Some(i);
        }
        i += 1;
    }
    None
}

/// By what a candidate is ordered: the position of its tier among the tiers
/// that count, the input price of the model that is served, and its
/// priority.
#[derive(Debug, Clone, Copy)]
pub struct RankKey {
    /// `usize::MAX` where the tier is not among the tiers that count.
    pub tier_position: usize,
    /// `u64::MAX` where the provider does not offer the model that the key
    /// is taken for.
    pub cost: u64,
    pub priority: u8,
}

/// The key of a provider.
pub open spec fn rank_key(p: Provider, tiers: Seq<Tier>, model: Seq<char>) -> RankKey {
    RankKey {
        tier_position: match tier_index_from(tiers, p.tier, 0) {
            Some(i) => i as usize,
            None => usize::MAX,
        },
        cost: match model_index_from(p.models@, model, 0) {
            Some(i) => p.models@[i].input_cost_per_1m,
            None => u64::MAX,
        },
        priority: p.priority,
    }
}

/// `a` goes strictly before `b`: an earlier tier, or the same tier and a
/// lower price, or the same tier and price and a higher priority.
pub open spec fn goes_before(a: RankKey, b: RankKey) -> bool {
    ||| a.tier_position < b.tier_position
    ||| a.tier_position == b.tier_position && a.cost < b.cost
    ||| a.tier_position == b.tier_position && a.cost == b.cost && a.priority > b.priority
}

/// `a` may stand before `b`: `b` does not go strictly before `a`.
pub open spec fn not_after(a: RankKey, b: RankKey) -> bool {
    !goes_before(b, a)
}

fn key_goes_before(a: &RankKey, b: &RankKey) -> (r: bool)
    ensures
        r == goes_before(*a, *b),
{
    a.tier_position < b.tier_position || (a.tier_position == b.tier_position && (a.cost < b.cost
        || (a.cost == b.cost && a.priority > b.priority)))
}

fn key_of(p: &Provider, tiers: &Vec<Tier>, model: &str) -> (r: RankKey)
    ensures
        r == rank_key(*p, tiers@, model@),
{
    let tier_position = match tier_position(tiers, p.tier) {
        Some(i) => i,
        None => usize::MAX,
    };
    let cost = match find_model(p, model) {
        Some(m) => m.input_cost_per_1m,
        None => u64::MAX,
    };
    RankKey { tier_position, cost, priority: p.priority }
}


/// Whether a provider is a candidate: enabled, offering the model, and
/// either the pinned provider or of a tier that counts.
pub open spec fn is_candidate(
    p: Provider,
    model: Seq<char>,
    pinned: Option<Seq<char>>,
    tiers: Seq<Tier>,
) -> bool {
    &&& p.enabled
    &&& serves(p, model)
    &&& match pinned {
        Some(id) => p.id@ == id,
        None => tiers.contains(p.tier),
    }
}

/// The positions, among the first `upto`, of the providers that are
/// candidates, in the order of the list.
pub open spec fn candidates_upto(
    providers: Seq<Provider>,
    model: Seq<char>,
    pinned: Option<Seq<char>>,
    tiers: Seq<Tier>,
    upto: int,
) -> Seq<usize>
    decreases upto,
{
    if upto <= 0 {
        Seq::empty()
    } else if is_candidate(providers[upto - 1], model, pinned, tiers) {
        candidates_upto(providers, model, pinned, tiers, upto - 1).push((upto - 1) as usize)
    } else {
        candidates_upto(providers, model, pinned, tiers, upto - 1)
    }
}

/// The positions of all candidates.
pub open spec fn candidates(
    providers: Seq<Provider>,
    model: Seq<char>,
    pinned: Option<Seq<char>>,
    tiers: Seq<Tier>,
) -> Seq<usize> {
    candidates_upto(providers, model, pinned, tiers, providers.len() as int)
}

/// Every position that `candidates_upto` returns is below `upto` and holds a
/// candidate.
pub proof fn lemma_candidates_sound(
    providers: Seq<Provider>,
    model: Seq<char>,
    pinned: Option<Seq<char>>,
    tiers: Seq<Tier>,
    upto: int,
)
    requires
        upto <= providers.len() <= usize::MAX,
    ensures
        forall|k: int|
            0 <= k < candidates_upto(providers, model, pinned, tiers, upto).len() ==> {
                let i = #[trigger] candidates_upto(providers, model, pinned, tiers, upto)[k];
                0 <= i < upto && is_candidate(providers[i as int], model, pinned, tiers)
            },
    decreases upto,
{
    if upto > 0 {
        lemma_candidates_sound(providers, model, pinned, tiers, upto - 1);
        let prev = candidates_upto(providers, model, pinned, tiers, upto - 1);
        let cur = candidates_upto(providers, model, pinned, tiers, upto);
        assert forall|k: int| 0 <= k < cur.len() implies {
            let i = #[trigger] cur[k];
            0 <= i < upto && is_candidate(providers[i as int], model, pinned, tiers)
        } by {
            if k < prev.len() {
                assert(cur[k] == prev[k]);
            }
        }
    }
}

/// Where `x` goes into a list that is kept in order: behind every entry that
/// it does not go strictly before, looked at from the back.
pub open spec fn insertion_point(sorted: Seq<usize>, x: usize, keys: Seq<RankKey>) -> int
    decreases sorted.len(),
{
    if sorted.len() == 0 {
        0
    } else if goes_before(keys[x as int], keys[sorted.last() as int]) {
        insertion_point(sorted.drop_last(), x, keys)
    } else {
        sorted.len() as int
    }
}

/// The first `upto` positions of `list`, ordered by their keys; positions
/// with equal keys keep the order they have in `list`.
pub open spec fn sorted_upto(list: Seq<usize>, keys: Seq<RankKey>, upto: int) -> Seq<usize>
    decreases upto,
{
    if upto <= 0 {
        Seq::empty()
    } else {
        let prev = sorted_upto(list, keys, upto - 1);
        prev.insert(insertion_point(prev, list[upto - 1], keys), list[upto - 1])
    }
}

/// The positions ordered by their keys, stably.
pub open spec fn stable_sorted(list: Seq<usize>, keys: Seq<RankKey>) -> Seq<usize> {
    sorted_upto(list, keys, list.len() as int)
}

/// The insertion point lies in the list; `x` goes strictly before every
/// entry from there on, and not before the entry just ahead of it.
pub proof fn lemma_insertion_point(sorted: Seq<usize>, x: usize, keys: Seq<RankKey>)
    ensures
        0 <= insertion_point(sorted, x, keys) <= sorted.len(),
        forall|j: int|
            insertion_point(sorted, x, keys) <= j < sorted.len() ==> goes_before(
                keys[x as int],
                keys[#[trigger] sorted[j] as int],
            ),
        insertion_point(sorted, x, keys) > 0 ==> !goes_before(
            keys[x as int],
            keys[sorted[insertion_point(sorted, x, keys) - 1] as int],
        ),
    decreases sorted.len(),
{
    if sorted.len() > 0 && goes_before(keys[x as int], keys[sorted.last() as int]) {
        let front = sorted.drop_last();
        lemma_insertion_point(front, x, keys);
        let at = insertion_point(sorted, x, keys);
        assert forall|j: int| at <= j < sorted.len() implies goes_before(
            keys[x as int],
            keys[#[trigger] sorted[j] as int],
        ) by {
            if j < front.len() {
                assert(sorted[j] == front[j]);
            }
        }
        if at > 0 {
            assert(sorted[at - 1] == front[at - 1]);
        }
    }
}

/// Sorting keeps the length, and every entry of the result is an entry of
/// the list.
pub proof fn lemma_sorted_members(list: Seq<usize>, keys: Seq<RankKey>, upto: int)
    requires
        0 <= upto <= list.len(),
    ensures
        sorted_upto(list, keys, upto).len() == upto,
        forall|k: int|
            0 <= k < upto ==> exists|j: int|
                0 <= j < upto && list[j] == #[trigger] sorted_upto(list, keys, upto)[k],
    decreases upto,
{
    if upto > 0 {
        let prev = sorted_upto(list, keys, upto - 1);
        let x = list[upto - 1];
        let at = insertion_point(prev, x, keys);
        lemma_sorted_members(list, keys, upto - 1);
        lemma_insertion_point(prev, x, keys);
        let next = sorted_upto(list, keys, upto);
        assert forall|k: int| 0 <= k < upto implies exists|j: int|
            0 <= j < upto && list[j] == #[trigger] next[k] by {
            if k < at {
                assert(next[k] == prev[k]);
                let j = choose|j: int| 0 <= j < upto - 1 && list[j] == prev[k];
                assert(0 <= j < upto && list[j] == next[k]);
            } else if k == at {
                assert(list[upto - 1] == next[k]);
            } else {
                assert(next[k] == prev[k - 1]);
                let j = choose|j: int| 0 <= j < upto - 1 && list[j] == prev[k - 1];
                assert(0 <= j < upto && list[j] == next[k]);
            }
        }
    }
}

/// The result of sorting is in order: no entry goes strictly before an
/// earlier one.
pub proof fn lemma_sorted_ordered(list: Seq<usize>, keys: Seq<RankKey>, upto: int)
    requires
        0 <= upto <= list.len(),
    ensures
        forall|a: int, b: int|
            0 <= a < b < upto ==> not_after(
                keys[#[trigger] sorted_upto(list, keys, upto)[a] as int],
                keys[#[trigger] sorted_upto(list, keys, upto)[b] as int],
            ),
    decreases upto,
{
    if upto > 0 {
        let prev = sorted_upto(list, keys, upto - 1);
        let x = list[upto - 1];
        let at = insertion_point(prev, x, keys);
        lemma_sorted_ordered(list, keys, upto - 1);
        lemma_sorted_members(list, keys, upto - 1);
        lemma_insertion_point(prev, x, keys);
        let next = sorted_upto(list, keys, upto);
        assert forall|a: int, b: int| 0 <= a < b < upto implies not_after(
            keys[#[trigger] next[a] as int],
            keys[#[trigger] next[b] as int],
        ) by {
            if b < at {
                assert(next[a] == prev[a] && next[b] == prev[b]);
            } else if b == at {
                assert(next[a] == prev[a]);
                assert(next[b] == x);
                if a < at - 1 {
                    assert(not_after(keys[prev[a] as int], keys[prev[at - 1] as int]));
                }
            } else if a < at {
                assert(next[a] == prev[a] && next[b] == prev[b - 1]);
            } else if a == at {
                assert(next[a] == x);
                assert(next[b] == prev[b - 1]);
            } else {
                assert(next[a] == prev[a - 1] && next[b] == prev[b - 1]);
            }
        }
    }
}


/// Sorting keeps every entry exactly once: the result holds what the list
/// holds, each entry as often as the list does.
pub proof fn lemma_sorted_permutes(list: Seq<usize>, keys: Seq<RankKey>, upto: int)
    requires
        0 <= upto <= list.len(),
    ensures
        sorted_upto(list, keys, upto).to_multiset() == list.take(upto).to_multiset(),
    decreases upto,
{
    if upto > 0 {
        let prev = sorted_upto(list, keys, upto - 1);
        let x = list[upto - 1];
        lemma_sorted_permutes(list, keys, upto - 1);
        lemma_sorted_members(list, keys, upto - 1);
        lemma_insertion_point(prev, x, keys);
        vstd::seq_lib::to_multiset_insert(prev, insertion_point(prev, x, keys), x);
        list.take(upto - 1).to_multiset_ensures();
        assert(list.take(upto) =~= list.take(upto - 1).push(x));
    } else {
        assert(list.take(upto) =~= sorted_upto(list, keys, upto));
    }
}

/// Sorting is stable: of two entries of a list without repetitions, the
/// earlier one stays ahead unless the later one goes strictly before it.
pub proof fn lemma_sorted_stable(list: Seq<usize>, keys: Seq<RankKey>, upto: int)
    requires
        0 <= upto <= list.len(),
        forall|i: int, j: int| 0 <= i < j < list.len() ==> list[i] != list[j],
    ensures
        forall|i: int, j: int, a: int, b: int|
            #![trigger list[i], list[j], sorted_upto(list, keys, upto)[a], sorted_upto(list, keys, upto)[b]]
            0 <= i < j < upto && 0 <= a < upto && 0 <= b < upto && sorted_upto(
                list,
                keys,
                upto,
            )[a] == list[i] && sorted_upto(list, keys, upto)[b] == list[j] && !goes_before(
                keys[list[j] as int],
                keys[list[i] as int],
            ) ==> a < b,
    decreases upto,
{
    if upto > 0 {
        let prev = sorted_upto(list, keys, upto - 1);
        let x = list[upto - 1];
        let at = insertion_point(prev, x, keys);
        let next = sorted_upto(list, keys, upto);
        lemma_sorted_stable(list, keys, upto - 1);
        lemma_sorted_members(list, keys, upto - 1);
        lemma_insertion_point(prev, x, keys);
        assert forall|p: int| 0 <= p < upto - 1 implies prev[p] != x by {
            let k = choose|k: int| 0 <= k < upto - 1 && list[k] == prev[p];
            assert(list[k] != list[upto - 1]);
        }
        assert forall|i: int, j: int, a: int, b: int|
            #![trigger list[i], list[j], next[a], next[b]]
            0 <= i < j < upto && 0 <= a < upto && 0 <= b < upto && next[a] == list[i] && next[b]
                == list[j] && !goes_before(
                keys[list[j] as int],
                keys[list[i] as int],
            ) implies a < b by {
            assert(list[i] != list[upto - 1]);
            assert(a != at);
            let before_a = if a < at {
                a
            } else {
                a - 1
            };
            assert(prev[before_a] == list[i]);
            if j == upto - 1 {
                if b != at {
                    let before_b = if b < at {
                        b
                    } else {
                        b - 1
                    };
                    assert(prev[before_b] == x);
                }
                if before_a >= at {
                    assert(goes_before(keys[x as int], keys[prev[before_a] as int]));
                }
            } else {
                assert(list[j] != list[upto - 1]);
                assert(b != at);
                let before_b = if b < at {
                    b
                } else {
                    b - 1
                };
                assert(prev[before_b] == list[j]);
                assert(before_a < before_b);
            }
        }
    }
}

/// The characters of an optional string slice.
pub open spec fn opt_text(o: Option<&str>) -> Option<Seq<char>> {
    match o {
        Some(s) => Some(s@),
        None => None,
    }
}

/// The key of every provider of a list, by position.
pub open spec fn all_keys(providers: Seq<Provider>, tiers: Seq<Tier>, model: Seq<char>) -> Seq<
    RankKey,
> {
    Seq::new(providers.len(), |i: int| rank_key(providers[i], tiers, model))
}

/// The tiers that count for a request under the profile that governs it.
pub open spec fn routing_tiers(
    config: Config,
    complexity: Option<ComplexityTier>,
    profile_override: Option<Seq<char>>,
) -> Seq<Tier> {
    match chosen_profile(config, profile_override) {
        Some(i) => effective_tiers(config.profiles@[i].allowed_tiers@, complexity),
        None => Seq::empty(),
    }
}

/// Whether the router falls back to the requested model: the profile maps
/// the request to another model, and no provider is a candidate for that
/// one.
pub open spec fn falls_back(
    config: Config,
    model_id: Seq<char>,
    complexity: Option<ComplexityTier>,
    profile_override: Option<Seq<char>>,
    use_agentic: bool,
) -> bool {
    match chosen_profile(config, profile_override) {
        Some(i) => {
            let profile = config.profiles@[i];
            let effective = mapped_model(profile, model_id, complexity, use_agentic);
            effective != model_id && candidates(
                config.providers@,
                effective,
                pinned_provider(profile, complexity, use_agentic),
                effective_tiers(profile.allowed_tiers@, complexity),
            ).len() == 0
        },
        None => false,
    }
}

/// The positions of the providers that a request is routed to, in the order
/// in which they are to be tried. Without a profile there is no candidate.
/// The candidates are the enabled providers that offer the effective model
/// and are the pinned provider or, where none is pinned, of a tier that
/// counts; after a fallback, the enabled providers of a tier that counts that
/// offer the requested model. They are ordered by their keys, taken for the
/// model that they were chosen for.
pub open spec fn route_positions(
    config: Config,
    model_id: Seq<char>,
    complexity: Option<ComplexityTier>,
    profile_override: Option<Seq<char>>,
    use_agentic: bool,
) -> Seq<usize> {
    match chosen_profile(config, profile_override) {
        Some(i) => {
            let profile = config.profiles@[i];
            let effective = mapped_model(profile, model_id, complexity, use_agentic);
            let tiers = effective_tiers(profile.allowed_tiers@, complexity);
            if falls_back(config, model_id, complexity, profile_override, use_agentic) {
                stable_sorted(
                    candidates(config.providers@, model_id, None, tiers),
                    all_keys(config.providers@, tiers, model_id),
                )
            } else {
                stable_sorted(
                    candidates(
                        config.providers@,
                        effective,
                        pinned_provider(profile, complexity, use_agentic),
                        tiers,
                    ),
                    all_keys(config.providers@, tiers, effective),
                )
            }
        },
        None => Seq::empty(),
    }
}

/// The providers that a request is routed to, in the order in which they are
/// to be tried.
pub open spec fn route_of(
    config: Config,
    model_id: Seq<char>,
    complexity: Option<ComplexityTier>,
    profile_override: Option<Seq<char>>,
    use_agentic: bool,
) -> Seq<Provider> {
    let positions = route_positions(config, model_id, complexity, profile_override, use_agentic);
    Seq::new(positions.len(), |k: int| config.providers@[positions[k] as int])
}

/// The views of a list of providers.
pub open spec fn provider_views(providers: Seq<Provider>) -> Seq<ProviderView> {
    Seq::new(providers.len(), |k: int| providers[k]@)
}

/// The model that the routed providers offer: the effective model, or the
/// requested one after a fallback.
pub open spec fn served_model(
    config: Config,
    model_id: Seq<char>,
    complexity: Option<ComplexityTier>,
    profile_override: Option<Seq<char>>,
    use_agentic: bool,
) -> Seq<char> {
    if falls_back(config, model_id, complexity, profile_override, use_agentic) {
        model_id
    } else {
        effective_model(config, model_id, complexity, profile_override, use_agentic)
    }
}

/// No disabled provider is routed to, none that lacks the model that is
/// served, and the list is in order: the key of an earlier provider, taken
/// for the model that is served, is never behind that of a later one.
pub proof fn lemma_route_sound(
    config: Config,
    model_id: Seq<char>,
    complexity: Option<ComplexityTier>,
    profile_override: Option<Seq<char>>,
    use_agentic: bool,
)
    ensures
        forall|k: int|
            0 <= k < route_of(config, model_id, complexity, profile_override, use_agentic).len()
                ==> {
                let p = #[trigger] route_of(
                    config,
                    model_id,
                    complexity,
                    profile_override,
                    use_agentic,
                )[k];
                p.enabled && serves(
                    p,
                    served_model(config, model_id, complexity, profile_override, use_agentic),
                )
            },
        forall|a: int, b: int|
            0 <= a < b < route_of(
                config,
                model_id,
                complexity,
                profile_override,
                use_agentic,
            ).len() ==> not_after(
                rank_key(
                    #[trigger] route_of(
                        config,
                        model_id,
                        complexity,
                        profile_override,
                        use_agentic,
                    )[a],
                    routing_tiers(config, complexity, profile_override),
                    served_model(config, model_id, complexity, profile_override, use_agentic),
                ),
                rank_key(
                    #[trigger] route_of(
                        config,
                        model_id,
                        complexity,
                        profile_override,
                        use_agentic,
                    )[b],
                    routing_tiers(config, complexity, profile_override),
                    served_model(config, model_id, complexity, profile_override, use_agentic),
                ),
            ),
{
    let route = route_of(config, model_id, complexity, profile_override, use_agentic);
    let positions = route_positions(config, model_id, complexity, profile_override, use_agentic);
    match chosen_profile(config, profile_override) {
        Some(i) => {
            let providers = config.providers@;
            assert(config.providers.len() == providers.len());
            let profile = config.profiles@[i];
            let effective = mapped_model(profile, model_id, complexity, use_agentic);
            let tiers = effective_tiers(profile.allowed_tiers@, complexity);
            let pinned = pinned_provider(profile, complexity, use_agentic);
            let back = falls_back(config, model_id, complexity, profile_override, use_agentic);
            let served = served_model(config, model_id, complexity, profile_override, use_agentic);
            let chosen = if back {
                candidates(providers, model_id, None, tiers)
            } else {
                candidates(providers, effective, pinned, tiers)
            };
            let keys = all_keys(providers, tiers, served);
            lemma_candidates_sound(providers, model_id, None, tiers, providers.len() as int);
            lemma_candidates_sound(providers, effective, pinned, tiers, providers.len() as int);
            lemma_sorted_members(chosen, keys, chosen.len() as int);
            lemma_sorted_ordered(chosen, keys, chosen.len() as int);
            assert forall|k: int| 0 <= k < route.len() implies {
                let p = #[trigger] route[k];
                p.enabled && serves(p, served)
            } by {
                let j = choose|j: int| 0 <= j < chosen.len() && chosen[j] == positions[k];
                assert(0 <= chosen[j] < providers.len());
            }
            assert forall|a: int, b: int| 0 <= a < b < route.len() implies not_after(
                rank_key(#[trigger] route[a], tiers, served),
                rank_key(#[trigger] route[b], tiers, served),
            ) by {
                let ja = choose|j: int| 0 <= j < chosen.len() && chosen[j] == positions[a];
                let jb = choose|j: int| 0 <= j < chosen.len() && chosen[j] == positions[b];
                assert(0 <= chosen[ja] < providers.len());
                assert(0 <= chosen[jb] < providers.len());
                assert(not_after(keys[positions[a] as int], keys[positions[b] as int]));
            }
        },
        None => {},
    }
}

fn resolve_profile<'a>(config: &'a Config, profile_override: Option<&str>) -> (r: Option<
    &'a RoutingProfile,
>)
    ensures
        match r {
            Some(p) => chosen_profile(*config, opt_text(profile_override)) is Some && *p
                == config.profiles@[chosen_profile(*config, opt_text(profile_override))->0],
            None => chosen_profile(*config, opt_text(profile_override)) is None,
        },
{
    let wanted: String = match profile_override {
        Some(name) => name.to_owned(),
        None => config.active_profile.clone(),
    };
    let mut i: usize = 0;
    while i < config.profiles.len()
        invariant
            i <= config.profiles.len(),
            wanted@ == wanted_profile(*config, opt_text(profile_override)),
            profile_index_from(config.profiles@, wanted@, 0) == profile_index_from(
                config.profiles@,
                wanted@,
                i as int,
            ),
        decreases config.profiles.len() - i,
    {
        if config.profiles[i].name == wanted {
            return Some(&config.profiles[i]);
        }
        i += 1;
    }
    if config.profiles.len() > 0 {
        Some(&config.profiles[0])
    } else {
        None
    }
}

fn mapping_for<'a>(
    profile: &'a RoutingProfile,
    complexity: Option<ComplexityTier>,
    use_agentic: bool,
) -> (r: Option<&'a ModelMapping>)
    ensures
        match r {
            Some(m) => tier_mapping(*profile, complexity, use_agentic) == Some(*m),
            None => tier_mapping(*profile, complexity, use_agentic) is None,
        },
{
    match complexity {
        Some(c) => {
            if use_agentic && profile.agentic_model_mapping.len() > 0 {
                lookup_mapping(&profile.agentic_model_mapping, tier_key_of(c))
            } else {
                lookup_mapping(&profile.model_mapping, tier_key_of(c))
            }
        },
        None => None,
    }
}

fn tiers_for(allowed: &Vec<Tier>, complexity: Option<ComplexityTier>) -> (r: Vec<Tier>)
    ensures
        r@ == effective_tiers(allowed@, complexity),
{
    match complexity {
        Some(c) => {
            let eligible = default_provider_tiers_for_complexity(c);
            let mut meet: Vec<Tier> = Vec::new();
            let mut i: usize = 0;
            while i < allowed.len()
                invariant
                    i <= allowed.len(),
                    eligible@ == eligible_tiers(c),
                    meet@ == meet_upto(allowed@, eligible@, i as int),
                decreases allowed.len() - i,
            {
                if tier_position(&eligible, allowed[i]).is_some() {
                    meet.push(allowed[i]);
                }
                i += 1;
            }
            if meet.len() == 0 {
                copy_tiers(allowed)
            } else {
                meet
            }
        },
        None => copy_tiers(allowed),
    }
}

fn copy_tiers(tiers: &Vec<Tier>) -> (r: Vec<Tier>)
    ensures
        r@ == tiers@,
{
    let mut r: Vec<Tier> = Vec::new();
    let mut i: usize = 0;
    while i < tiers.len()
        invariant
            i <= tiers.len(),
            r@ == tiers@.take(i as int),
        decreases tiers.len() - i,
    {
        r.push(tiers[i]);
        assert(tiers@.take(i + 1) =~= tiers@.take(i as int).push(tiers@[i as int]));
        i += 1;
    }
    assert(tiers@.take(tiers@.len() as int) =~= tiers@);
    r
}

fn select(providers: &Vec<Provider>, model: &str, pinned: Option<&str>, tiers: &Vec<Tier>) -> (r:
    Vec<usize>)
    ensures
        r@ == candidates(providers@, model@, opt_text(pinned), tiers@),
        forall|k: int| 0 <= k < r@.len() ==> #[trigger] r@[k] < providers@.len(),
{
    let mut r: Vec<usize> = Vec::new();
    let mut i: usize = 0;
    while i < providers.len()
        invariant
            i <= providers.len(),
            r@ == candidates_upto(providers@, model@, opt_text(pinned), tiers@, i as int),
            forall|k: int| 0 <= k < r@.len() ==> #[trigger] r@[k] < providers@.len(),
        decreases providers.len() - i,
    {
        let p = &providers[i];
        let admitted = match pinned {
            Some(id) => str_eq(p.id.as_str(), id),
            None => tier_position(tiers, p.tier).is_some(),
        };
        if p.enabled && admitted && find_model(p, model).is_some() {
            r.push(i);
        }
        i += 1;
    }
    r
}

fn keys_for(providers: &Vec<Provider>, tiers: &Vec<Tier>, model: &str) -> (r: Vec<RankKey>)
    ensures
        r@ == all_keys(providers@, tiers@, model@),
{
    let mut r: Vec<RankKey> = Vec::new();
    let mut i: usize = 0;
    while i < providers.len()
        invariant
            i <= providers.len(),
            r@.len() == i,
            forall|k: int| 0 <= k < i ==> r@[k] == rank_key(providers@[k], tiers@, model@),
        decreases providers.len() - i,
    {
        r.push(key_of(&providers[i], tiers, model));
        i += 1;
    }
    assert(r@ =~= all_keys(providers@, tiers@, model@));
    r
}

fn sort_positions(list: &Vec<usize>, keys: &Vec<RankKey>) -> (r: Vec<usize>)
    requires
        forall|k: int| 0 <= k < list@.len() ==> #[trigger] list@[k] < keys@.len(),
    ensures
        r@ == stable_sorted(list@, keys@),
        forall|k: int| 0 <= k < r@.len() ==> #[trigger] r@[k] < keys@.len(),
{
    let mut r: Vec<usize> = Vec::new();
    let mut i: usize = 0;
    while i < list.len()
        invariant
            i <= list.len(),
            r@ == sorted_upto(list@, keys@, i as int),
            r@.len() == i,
            forall|k: int| 0 <= k < list@.len() ==> #[trigger] list@[k] < keys@.len(),
            forall|k: int| 0 <= k < r@.len() ==> #[trigger] r@[k] < keys@.len(),
        decreases list.len() - i,
    {
        let x = list[i];
        let mut at: usize = r.len();
        assert(r@.take(r@.len() as int) =~= r@);
        while at > 0 && key_goes_before(&keys[x], &keys[r[at - 1]])
            invariant
                at <= r@.len(),
                x < keys@.len(),
                forall|k: int| 0 <= k < r@.len() ==> #[trigger] r@[k] < keys@.len(),
                insertion_point(r@, x, keys@) == insertion_point(r@.take(at as int), x, keys@),
            decreases at,
        {
            assert(r@.take(at as int).drop_last() =~= r@.take(at - 1));
            at -= 1;
        }
        r.insert(at, x);
        i += 1;
    }
    r
}

/// The router.
pub struct Router;

impl Router {
    /// Reads a virtual model id of the form `router/<profile>` and returns
    /// the profile's name.
    pub fn parse_router_model(model_id: &str) -> (r: Option<&str>)
        ensures
            opt_text(r) == router_profile(model_id@),
    {
        let chars = chars_of(model_id);
        let prefix = chars_of(ROUTER_PREFIX);
        if starts_with_chars(&chars, &prefix) {
            Some(model_id.substring_char(prefix.len(), chars.len()))
        } else {
            None
        }
    }

    /// Routes a request under the active profile.
    pub fn route_request(
        config: &Config,
        model_id: &str,
        complexity: Option<ComplexityTier>,
        use_agentic: bool,
    ) -> (r: Vec<Provider>)
        ensures
            provider_views(r@) == provider_views(
                route_of(*config, model_id@, complexity, None, use_agentic),
            ),
    {
        Self::route_request_with_profile(config, model_id, complexity, None, use_agentic)
    }

    /// Routes a request: the candidate providers in the order in which they
    /// are to be tried.
    pub fn route_request_with_profile(
        config: &Config,
        model_id: &str,
        complexity: Option<ComplexityTier>,
        profile_override: Option<&str>,
        use_agentic: bool,
    ) -> (r: Vec<Provider>)
        ensures
            provider_views(r@) == provider_views(
                route_of(*config, model_id@, complexity, opt_text(profile_override), use_agentic),
            ),
    {
        let ghost route = route_of(
            *config,
            model_id@,
            complexity,
            opt_text(profile_override),
            use_agentic,
        );
        let profile = match resolve_profile(config, profile_override) {
            Some(p) => p,
            None => {
                let r: Vec<Provider> = Vec::new();
                assert(provider_views(r@) =~= provider_views(route));
                return r;
            },
        };
        let mapping = mapping_for(profile, complexity, use_agentic);
        let effective: &str = match mapping {
            Some(m) => if m.model_id.as_str().is_empty() {
                model_id
            } else {
                m.model_id.as_str()
            },
            None => model_id,
        };
        let pinned: Option<&str> = match mapping {
            Some(m) => if m.provider_id.as_str().is_empty() {
                None
            } else {
                Some(m.provider_id.as_str())
            },
            None => None,
        };
        let tiers = tiers_for(&profile.allowed_tiers, complexity);
        let mut chosen = select(&config.providers, effective, pinned, &tiers);
        let mut served = effective;
        if chosen.len() == 0 && !str_eq(effective, model_id) {
            chosen = select(&config.providers, model_id, None, &tiers);
            served = model_id;
        }
        let keys = keys_for(&config.providers, &tiers, served);
        let order = sort_positions(&chosen, &keys);
        let mut r: Vec<Provider> = Vec::new();
        let mut k: usize = 0;
        while k < order.len()
            invariant
                k <= order.len(),
                r@.len() == k,
                keys@.len() == config.providers@.len(),
                forall|j: int| 0 <= j < order@.len() ==> #[trigger] order@[j] < keys@.len(),
                forall|j: int| 0 <= j < k ==> r@[j]@ == config.providers@[order@[j] as int]@,
            decreases order.len() - k,
        {
            r.push(config.providers[order[k]].clone());
            k += 1;
        }
        assert(order@ == route_positions(
            *config,
            model_id@,
            complexity,
            opt_text(profile_override),
            use_agentic,
        ));
        assert(provider_views(r@) =~= provider_views(route));
        r
    }

    /// The effective model of a request under the active profile.
    pub fn resolve_model_id<'a>(
        config: &'a Config,
        model_id: &'a str,
        complexity: Option<ComplexityTier>,
        use_agentic: bool,
    ) -> (r: &'a str)
        ensures
            r@ == effective_model(*config, model_id@, complexity, None, use_agentic),
    {
        Self::resolve_model_id_with_profile(config, model_id, complexity, None, use_agentic)
    }

    /// The effective model of a request: the model that the governing
    /// profile maps the complexity tier to, else the requested model.
    pub fn resolve_model_id_with_profile<'a>(
        config: &'a Config,
        model_id: &'a str,
        complexity: Option<ComplexityTier>,
        profile_override: Option<&str>,
        use_agentic: bool,
    ) -> (r: &'a str)
        ensures
            r@ == effective_model(
                *config,
                model_id@,
                complexity,
                opt_text(profile_override),
                use_agentic,
            ),
    {
        match resolve_profile(config, profile_override) {
            Some(profile) => match mapping_for(profile, complexity, use_agentic) {
                Some(m) => if m.model_id.as_str().is_empty() {
                    model_id
                } else {
                    m.model_id.as_str()
                },
                None => model_id,
            },
            None => model_id,
        }
    }
}

} // verus!
