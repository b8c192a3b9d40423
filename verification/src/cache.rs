//! The response cache: configuration, content-addressed keys, storage paths
//! and the freshness rule. Reading and writing the files is left to the
//! caller.

use vstd::prelude::*;
use vstd::slice::slice_to_vec;
use vstd::utf8::encode_utf8;
use sha2::Digest;
use crate::message::{ChatMessage, ExtraParam, find_extra, lookup_extra};
use crate::state::utc_now;

verus! {

/// Response-cache knobs.
#[derive(Debug)]
pub struct CacheConfig {
    pub enabled: bool,
    /// How long an entry stays fresh, in seconds.
    pub ttl_seconds: u64,
    pub cache_dir: String,
}

/// A `CacheConfig` as mathematical values.
pub struct CacheConfigView {
    pub enabled: bool,
    pub ttl_seconds: u64,
    pub cache_dir: Seq<char>,
}

impl View for CacheConfig {
    type V = CacheConfigView;

    open spec fn view(&self) -> CacheConfigView {
        CacheConfigView {
            enabled: self.enabled,
            ttl_seconds: self.ttl_seconds,
            cache_dir: self.cache_dir@,
        }
    }
}

impl Clone for CacheConfig {
    fn clone(&self) -> (r: Self)
        ensures
            r == *self,
    {
        CacheConfig {
            enabled: self.enabled,
            ttl_seconds: self.ttl_seconds,
            cache_dir: self.cache_dir.clone(),
        }
    }
}

impl Default for CacheConfig {
    fn default() -> (r: Self)
        ensures
            !r.enabled,
            r.ttl_seconds == 3600,
            r.cache_dir@ == "cache"@,
    {
        CacheConfig { enabled: false, ttl_seconds: 3600, cache_dir: "cache".to_owned() }
    }
}


/// What `sha2::Sha256` returns for the bytes: the SHA-256 digest, rendered
/// as 64 lowercase hexadecimal digits.
pub uninterp spec fn sha256_hex_of(data: Seq<u8>) -> Seq<char>;

/// Hashes the bytes with `sha2::Sha256::digest` and renders the digest in
/// lowercase hexadecimal. The contract only names the result.
#[verifier::external_body]
pub(crate) fn sha256_hex(data: &[u8]) -> (r: String)
    ensures
        r@ == sha256_hex_of(data@),
{
    format!("{:x}", sha2::Sha256::digest(data))
}

/// The parameters that shape a response, in ascending order. No other
/// parameter enters a cache key.
pub const RECOGNIZED_EXTRAS: [&'static str; 9] = [
    "max_completion_tokens", "max_tokens", "response_format", "seed", "stop", "temperature",
    "tool_choice", "tools", "top_p",
];

/// The JSON texts of the first `upto` messages, separated by commas.
pub open spec fn messages_json_upto(messages: Seq<ChatMessage>, upto: int) -> Seq<char>
    decreases upto,
{
    if upto <= 0 {
        Seq::empty()
    } else if upto == 1 {
        messages[0].encoded@
    } else {
        messages_json_upto(messages, upto - 1) + seq![','] + messages[upto - 1].encoded@
    }
}

/// The messages as one compact JSON array.
pub open spec fn messages_json(messages: Seq<ChatMessage>) -> Seq<char> {
    seq!['['] + messages_json_upto(messages, messages.len() as int) + seq![']']
}

/// What one recognized parameter adds to the key material: its key and its
/// JSON text if the request holds it, else nothing.
pub open spec fn extra_material(extra: Seq<ExtraParam>, key: Seq<char>) -> Seq<char> {
    match find_extra(extra, key) {
        Some(i) => key + extra[i].encoded@,
        None => Seq::empty(),
    }
}

/// What the first `upto` recognized parameters add to the key material.
pub open spec fn extras_material_upto(extra: Seq<ExtraParam>, upto: int) -> Seq<char>
    decreases upto,
{
    if upto <= 0 {
        Seq::empty()
    } else {
        extras_material_upto(extra, upto - 1) + extra_material(extra, RECOGNIZED_EXTRAS@[upto - 1]@)
    }
}

/// The text that is hashed into a cache key: the model, the messages as
/// compact JSON, and each recognized parameter that the request holds, in
/// ascending key order, as its key followed by its JSON text.
pub open spec fn key_material(model: Seq<char>, messages: Seq<ChatMessage>, extra: Seq<ExtraParam>)
    -> Seq<char> {
    model + messages_json(messages) + extras_material_upto(extra, RECOGNIZED_EXTRAS@.len() as int)
}

/// The cache key of a request: the SHA-256 digest of the key material's
/// UTF-8 bytes, in hexadecimal.
pub open spec fn cache_key_of(model: Seq<char>, messages: Seq<ChatMessage>, extra: Seq<ExtraParam>)
    -> Seq<char> {
    sha256_hex_of(encode_utf8(key_material(model, messages, extra)))
}

/// What a request holds under a key: the JSON text of the first parameter
/// with that key.
pub open spec fn extra_text(extra: Seq<ExtraParam>, key: Seq<char>) -> Option<Seq<char>> {
    match find_extra(extra, key) {
        Some(i) => Some(extra[i].encoded@),
        None => None,
    }
}

/// The cache key is a function of the model, the messages and what the
/// request holds under the recognized keys: two parameter lists that agree
/// on those give the same key, whatever else they hold and in whatever
/// order.
pub proof fn lemma_cache_key_recognized_only(
    model: Seq<char>,
    messages: Seq<ChatMessage>,
    first: Seq<ExtraParam>,
    second: Seq<ExtraParam>,
)
    requires
        forall|i: int|
            0 <= i < RECOGNIZED_EXTRAS@.len() ==> extra_text(first, #[trigger] RECOGNIZED_EXTRAS@[i]@)
                == extra_text(second, RECOGNIZED_EXTRAS@[i]@),
    ensures
        cache_key_of(model, messages, first) == cache_key_of(model, messages, second),
{
    lemma_extras_material_agree(first, second, RECOGNIZED_EXTRAS@.len() as int);
}

proof fn lemma_extras_material_agree(first: Seq<ExtraParam>, second: Seq<ExtraParam>, upto: int)
    requires
        upto <= RECOGNIZED_EXTRAS@.len(),
        forall|i: int|
            0 <= i < RECOGNIZED_EXTRAS@.len() ==> extra_text(first, #[trigger] RECOGNIZED_EXTRAS@[i]@)
                == extra_text(second, RECOGNIZED_EXTRAS@[i]@),
    ensures
        extras_material_upto(first, upto) == extras_material_upto(second, upto),
    decreases upto,
{
    if upto > 0 {
        lemma_extras_material_agree(first, second, upto - 1);
        let key = RECOGNIZED_EXTRAS@[upto - 1]@;
        assert(extra_text(first, key) == extra_text(second, key));
    }
}

/// No key occurs twice among the parameters.
pub open spec fn distinct_param_keys(extra: Seq<ExtraParam>) -> bool {
    forall|i: int, j: int| 0 <= i < j < extra.len() ==> extra[i].key@ != extra[j].key@
}

/// Reordering the parameters of a request, recognized or not, leaves its
/// cache key unchanged.
pub proof fn lemma_cache_key_ignores_order(
    model: Seq<char>,
    messages: Seq<ChatMessage>,
    first: Seq<ExtraParam>,
    second: Seq<ExtraParam>,
)
    requires
        distinct_param_keys(first),
        first.to_multiset() == second.to_multiset(),
    ensures
        cache_key_of(model, messages, first) == cache_key_of(model, messages, second),
{
    assert forall|i: int| 0 <= i < RECOGNIZED_EXTRAS@.len() implies extra_text(
        first,
        #[trigger] RECOGNIZED_EXTRAS@[i]@,
    ) == extra_text(second, RECOGNIZED_EXTRAS@[i]@) by {
        lemma_lookup_ignores_order(first, second, RECOGNIZED_EXTRAS@[i]@);
    }
    lemma_cache_key_recognized_only(model, messages, first, second);
}

proof fn lemma_lookup_ignores_order(first: Seq<ExtraParam>, second: Seq<ExtraParam>, key: Seq<char>)
    requires
        distinct_param_keys(first),
        first.to_multiset() == second.to_multiset(),
    ensures
        extra_text(first, key) == extra_text(second, key),
{
    broadcast use vstd::seq_lib::group_to_multiset_ensures;

    crate::message::lemma_find_extra_in_range(first, key, 0);
    crate::message::lemma_find_extra_in_range(second, key, 0);
    first.to_multiset_ensures();
    second.to_multiset_ensures();
    match find_extra(second, key) {
        Some(j) => {
            assert(second.contains(second[j]));
            assert(first.to_multiset().count(second[j]) > 0);
            assert(first.contains(second[j]));
            let at = choose|at: int| 0 <= at < first.len() && first[at] == second[j];
            let i = find_extra(first, key)->0;
            assert(i == at);
        },
        None => {
            if find_extra(first, key) is Some {
                let i = find_extra(first, key)->0;
                assert(first.contains(first[i]));
                assert(second.to_multiset().count(first[i]) > 0);
                assert(second.contains(first[i]));
                let at = choose|at: int| 0 <= at < second.len() && second[at] == first[i];
                assert(second[at].key@ == key);
            }
        },
    }
}

/// Builds the cache key of a request.
pub fn cache_key(model: &str, messages: &[ChatMessage], extra: &Vec<ExtraParam>) -> (key: String)
    ensures
        key@ == cache_key_of(model@, messages@, extra@),
{
    proof {
        reveal_strlit("[");
        reveal_strlit("]");
        reveal_strlit(",");
    }
    let mut material = model.to_owned();
    material.append("[");
    assert("["@ =~= seq!['[']);
    assert("]"@ =~= seq![']']);
    assert(","@ =~= seq![',']);
    let mut i: usize = 0;
    while i < messages.len()
        invariant
            i <= messages.len(),
            ","@ == seq![','],
            material@ == model@ + seq!['['] + messages_json_upto(messages@, i as int),
        decreases messages.len() - i,
    {
        if i > 0 {
            material.append(",");
        }
        material.append(messages[i].encoded.as_str());
        assert(material@ =~= model@ + seq!['['] + messages_json_upto(messages@, i + 1));
        i += 1;
    }
    material.append("]");
    assert(material@ =~= model@ + messages_json(messages@));
    let mut k: usize = 0;
    while k < RECOGNIZED_EXTRAS.len()
        invariant
            k <= RECOGNIZED_EXTRAS@.len(),
            material@ == model@ + messages_json(messages@) + extras_material_upto(extra@, k as int),
        decreases RECOGNIZED_EXTRAS@.len() - k,
    {
        let name = RECOGNIZED_EXTRAS[k];
        let ghost before = material@;
        match lookup_extra(extra, name) {
            Some(param) => {
                material.append(name);
                material.append(param.encoded.as_str());
                assert(material@ =~= before + extra_material(extra@, name@));
            },
            None => {
                assert(material@ =~= before + extra_material(extra@, name@));
            },
        }
        assert(material@ =~= model@ + messages_json(messages@) + extras_material_upto(
            extra@,
            k + 1,
        ));
        k += 1;
    }
    sha256_hex(material.as_str().as_bytes())
}

/// The current Unix time in seconds, as the system clock reads it. Like the
/// clock it reads, it fails where the system clock stands before 1970.
pub fn now_unix() -> (r: u64)
    ensures
        exists|reading: i64| r == unix_seconds_of(reading),
{
    let r = unix_seconds(utc_now());
    r
}

/// A clock reading, in seconds since the epoch, as the cache counts time:
/// the reading itself, and zero for a reading before the epoch.
pub open spec fn unix_seconds_of(reading: i64) -> u64 {
    if reading < 0 {
        0
    } else {
        reading as u64
    }
}

/// Turns a clock reading into the time that the cache counts in.
pub fn unix_seconds(reading: i64) -> (r: u64)
    ensures
        r == unix_seconds_of(reading),
{
    if reading < 0 {
        0
    } else {
        reading as u64
    }
}

/// The first two characters of a key, or all of it if it is shorter.
pub open spec fn key_prefix(key: Seq<char>) -> Seq<char> {
    if key.len() < 2 {
        key
    } else {
        key.subrange(0, 2)
    }
}

/// Where the entry of a key is stored: in the cache directory, in the
/// subdirectory named by the key's first two characters, in the file named
/// by the key with the extension `.json`.
pub open spec fn entry_path_of(cache_dir: Seq<char>, key: Seq<char>) -> Seq<char> {
    cache_dir + seq!['/'] + key_prefix(key) + seq!['/'] + key + ".json"@
}

/// The path of the file that holds the entry of a key.
pub fn entry_path(cache_dir: &str, key: &str) -> (path: String)
    ensures
        path@ == entry_path_of(cache_dir@, key@),
{
    proof {
        reveal_strlit("/");
    }
    assert("/"@ =~= seq!['/']);
    let n = key.unicode_len();
    let prefix = if n < 2 {
        key
    } else {
        key.substring_char(0, 2)
    };
    let mut path = cache_dir.to_owned();
    path.append("/");
    path.append(prefix);
    path.append("/");
    path.append(key);
    path.append(".json");
    assert(path@ =~= entry_path_of(cache_dir@, key@));
    path
}

/// A stored response.
#[derive(Debug, Clone)]
pub struct CacheEntry {
    /// Unix time at which the response was stored, in seconds.
    pub cached_at: u64,
    pub model: String,
    pub response_body: Vec<u8>,
}

/// What a lookup finds.
#[derive(Debug)]
pub enum CacheLookup {
    /// A fresh entry; its response body.
    Hit(Vec<u8>),
    /// An entry past its time to live; its file is to be removed.
    Expired,
    /// Nothing: the cache is off, or nothing usable is stored.
    Miss,
}

/// Whether an entry is still fresh at `now`: its age is at most the time to
/// live.
pub open spec fn is_fresh(entry: CacheEntry, ttl_seconds: u64, now: u64) -> bool {
    now - entry.cached_at <= ttl_seconds
}

/// What a lookup finds, given what the entry's file holds: `None` where
/// there is no file or it cannot be read as an entry.
pub open spec fn lookup_of(config: CacheConfig, stored: Option<CacheEntry>, now: u64)
    -> CacheLookup {
    if !config.enabled {
        CacheLookup::Miss
    } else {
        match stored {
            Some(entry) => if is_fresh(entry, config.ttl_seconds, now) {
                CacheLookup::Hit(entry.response_body)
            } else {
                CacheLookup::Expired
            },
            None => CacheLookup::Miss,
        }
    }
}

/// Decides a lookup from what is stored under the key.
pub fn get(config: &CacheConfig, stored: Option<CacheEntry>, now: u64) -> (r: CacheLookup)
    ensures
        r == lookup_of(*config, stored, now),
{
    if !config.enabled {
        return CacheLookup::Miss;
    }
    match stored {
        Some(entry) => {
            if now <= entry.cached_at || now - entry.cached_at <= config.ttl_seconds {
                CacheLookup::Hit(entry.response_body)
            } else {
                CacheLookup::Expired
            }
        },
        None => CacheLookup::Miss,
    }
}

/// Makes the entry to store for a response; none when the cache is off.
pub fn put(config: &CacheConfig, model: &str, response_body: &[u8], now: u64) -> (r: Option<
    CacheEntry,
>)
    ensures
        r is Some <==> config.enabled,
        r is Some ==> r->0.cached_at == now && r->0.model@ == model@ && r->0.response_body@
            == response_body@,
{
    if !config.enabled {
        return None;
    }
    Some(CacheEntry { cached_at: now, model: model.to_owned(), response_body: slice_to_vec(response_body) })
}

} // verus!
