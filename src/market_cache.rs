//! Market metadata lookup tables: risk flags, slugs, category membership and
//! live status per token id, loaded from JSON text and refreshed on a schedule.
use rustc_hash::FxHashMap;
use vstd::prelude::*;

verus! {

/// How often the caches are refreshed, in seconds.
pub const CACHE_REFRESH_INTERVAL_SECS: u64 = 30 * 60;

// ============================================================================
// Tables
// ============================================================================

/// Token id to a flag.
#[verifier::external_body]
pub struct FlagTable {
    map: FxHashMap<String, bool>,
}

/// Token id to a text.
#[verifier::external_body]
pub struct TextTable {
    map: FxHashMap<String, String>,
}

/// A set of token ids.
#[verifier::external_body]
pub struct KeyTable {
    map: FxHashMap<String, ()>,
}

/// What a `FlagTable` holds.
pub uninterp spec fn flag_entries(t: FlagTable) -> Map<Seq<char>, bool>;

/// What a `TextTable` holds.
pub uninterp spec fn text_entries(t: TextTable) -> Map<Seq<char>, Seq<char>>;

/// What a `KeyTable` holds.
pub uninterp spec fn key_entries(t: KeyTable) -> Set<Seq<char>>;

/// Relies on `FxHashMap::default`: a new map holds no entry.
#[verifier::external_body]
fn flag_new() -> (r: FlagTable)
    ensures
        flag_entries(r) =~= Map::empty(),
{
    FlagTable { map: FxHashMap::default() }
}

/// Relies on `FxHashMap::default`: a new map holds no entry.
#[verifier::external_body]
fn text_new() -> (r: TextTable)
    ensures
        text_entries(r) =~= Map::empty(),
{
    TextTable { map: FxHashMap::default() }
}

/// Relies on `FxHashMap::default`: a new map holds no entry.
#[verifier::external_body]
fn key_new() -> (r: KeyTable)
    ensures
        key_entries(r) =~= Set::empty(),
{
    KeyTable { map: FxHashMap::default() }
}

/// Relies on `HashMap::get` of an `FxHashMap`: the flag stored under the key.
#[verifier::external_body]
fn flag_get(t: &FlagTable, id: &str) -> (r: Option<bool>)
    ensures
        r == (if flag_entries(*t).contains_key(id@) {
            Some(flag_entries(*t)[id@])
        } else {
            None::<bool>
        }),
{
    t.map.get(id).copied()
}

/// Relies on `HashMap::get` of an `FxHashMap`: a clone of the text stored
/// under the key.
#[verifier::external_body]
fn text_get(t: &TextTable, id: &str) -> (r: Option<String>)
    ensures
        match r {
            Some(s) => text_entries(*t).contains_key(id@) && s@ == text_entries(*t)[id@],
            None => !text_entries(*t).contains_key(id@),
        },
{
    t.map.get(id).cloned()
}

/// Relies on `HashMap::contains_key` of an `FxHashMap`.
#[verifier::external_body]
fn text_contains(t: &TextTable, id: &str) -> (r: bool)
    ensures
        r == text_entries(*t).contains_key(id@),
{
    t.map.contains_key(id)
}

/// Relies on `HashMap::contains_key` of an `FxHashMap`.
#[verifier::external_body]
fn key_contains(t: &KeyTable, id: &str) -> (r: bool)
    ensures
        r == key_entries(*t).contains(id@),
{
    t.map.contains_key(id)
}

/// Relies on `HashMap::insert` of an `FxHashMap`: the key maps to the flag
/// afterwards, and every other key keeps its value.
#[verifier::external_body]
fn flag_insert(t: &mut FlagTable, id: String, v: bool)
    ensures
        flag_entries(*final(t)) == flag_entries(*old(t)).insert(id@, v),
{
    t.map.insert(id, v);
}

/// Relies on `HashMap::insert` of an `FxHashMap`: the key is present afterwards,
/// and the other keys stay as they were.
#[verifier::external_body]
fn key_insert(t: &mut KeyTable, id: String)
    ensures
        key_entries(*final(t)) == key_entries(*old(t)).insert(id@),
{
    t.map.insert(id, ());
}

/// Relies on `HashMap::len` of an `FxHashMap`: the number of keys.
#[verifier::external_body]
fn flag_len(t: &FlagTable) -> (r: usize)
    ensures
        r == flag_entries(*t).len(),
{
    t.map.len()
}

/// Relies on `HashMap::len` of an `FxHashMap`: the number of keys.
#[verifier::external_body]
fn text_len(t: &TextTable) -> (r: usize)
    ensures
        r == text_entries(*t).len(),
{
    t.map.len()
}

// ============================================================================
// JSON
// ============================================================================

/// The JSON object of booleans in the text, key by key (a repeated key keeps
/// its last value), or `None` where the text is no such object.
pub uninterp spec fn json_flag_object(text: Seq<char>) -> Option<Map<Seq<char>, bool>>;

/// The JSON object of strings in the text, key by key (a repeated key keeps
/// its last value), or `None` where the text is no such object.
pub uninterp spec fn json_text_object(text: Seq<char>) -> Option<Map<Seq<char>, Seq<char>>>;

/// The JSON array of strings in the text, or `None` where the text is no such
/// array.
pub uninterp spec fn json_string_array(text: Seq<char>) -> Option<Seq<Seq<char>>>;

/// Relies on `serde_json::from_str` into an `FxHashMap<String, bool>`.
#[verifier::external_body]
fn parse_flag_object(text: &str) -> (r: Option<FlagTable>)
    ensures
        match r {
            Some(t) => json_flag_object(text@) == Some(flag_entries(t)),
            None => json_flag_object(text@) is None,
        },
{
    serde_json::from_str::<FxHashMap<String, bool>>(text).ok().map(|map| FlagTable { map })
}

/// Relies on `serde_json::from_str` into an `FxHashMap<String, String>`.
#[verifier::external_body]
fn parse_text_object(text: &str) -> (r: Option<TextTable>)
    ensures
        match r {
            Some(t) => json_text_object(text@) == Some(text_entries(t)),
            None => json_text_object(text@) is None,
        },
{
    serde_json::from_str::<FxHashMap<String, String>>(text).ok().map(|map| TextTable { map })
}

/// Relies on `serde_json::from_str` into a `Vec<String>`.
#[verifier::external_body]
fn parse_string_array(text: &str) -> (r: Option<Vec<String>>)
    ensures
        match r {
            Some(v) => json_string_array(text@) is Some && v@.len() == json_string_array(text@)->0.len()
                && forall|i: int| 0 <= i < v@.len() ==> #[trigger] v@[i]@ == json_string_array(text@)->0[i],
            None => json_string_array(text@) is None,
        },
{
    serde_json::from_str::<Vec<String>>(text).ok()
}

// ============================================================================
// Caches
// ============================================================================

/// Counters kept across loads.
#[derive(Clone, Copy, PartialEq, Eq, Structural, Debug)]
pub struct CacheStats {
    pub neg_risk_count: u64,
    pub slug_count: u64,
    pub atp_count: u64,
    pub ligue1_count: u64,
    pub live_count: u64,
    pub refresh_count: u64,
    pub last_refresh_duration_ms: u64,
}

pub open spec fn zero_stats() -> CacheStats {
    CacheStats {
        neg_risk_count: 0,
        slug_count: 0,
        atp_count: 0,
        ligue1_count: 0,
        live_count: 0,
        refresh_count: 0,
        last_refresh_duration_ms: 0,
    }
}

impl Default for CacheStats {
    fn default() -> (r: Self)
        ensures
            r == zero_stats(),
    {
        CacheStats {
            neg_risk_count: 0,
            slug_count: 0,
            atp_count: 0,
            ligue1_count: 0,
            live_count: 0,
            refresh_count: 0,
            last_refresh_duration_ms: 0,
        }
    }
}

/// How many entries each load brought in, and how long it took.
#[derive(Clone, Copy, PartialEq, Eq, Structural, Debug)]
pub struct CacheLoadResult {
    pub neg_risk_loaded: usize,
    pub slugs_loaded: usize,
    pub atp_loaded: usize,
    pub ligue1_loaded: usize,
    pub live_loaded: usize,
    pub load_time_ms: u64,
}

impl Default for CacheLoadResult {
    fn default() -> (r: Self)
        ensures
            r == (CacheLoadResult {
                neg_risk_loaded: 0,
                slugs_loaded: 0,
                atp_loaded: 0,
                ligue1_loaded: 0,
                live_loaded: 0,
                load_time_ms: 0,
            }),
    {
        CacheLoadResult {
            neg_risk_loaded: 0,
            slugs_loaded: 0,
            atp_loaded: 0,
            ligue1_loaded: 0,
            live_loaded: 0,
            load_time_ms: 0,
        }
    }
}

/// All cached market data.
pub struct MarketCaches {
    /// Token id to its neg-risk flag.
    pub neg_risk: FlagTable,
    /// Token id to its market slug.
    pub slugs: TextTable,
    /// ATP token ids, with their category.
    pub atp_tokens: TextTable,
    /// Ligue 1 token ids.
    pub ligue1_tokens: KeyTable,
    /// Token id to its live status.
    pub live_status: FlagTable,
    /// Time of the last refresh, in Unix seconds.
    pub last_refresh: u64,
    pub stats: CacheStats,
}

pub open spec fn flag_lookup(m: Map<Seq<char>, bool>, id: Seq<char>) -> Option<bool> {
    if m.contains_key(id) { Some(m[id]) } else { None }
}

/// `text` is given and holds a JSON object of booleans.
pub open spec fn flag_parsed(text: Option<&str>) -> bool {
    text is Some && json_flag_object(text->0@) is Some
}

/// `text` is given and holds a JSON object of strings.
pub open spec fn text_parsed(text: Option<&str>) -> bool {
    text is Some && json_text_object(text->0@) is Some
}

/// `text` is given and holds a JSON array of strings.
pub open spec fn list_parsed(text: Option<&str>) -> bool {
    text is Some && json_string_array(text->0@) is Some
}

/// What a load of a flag table from `text` reports: the number of keys of
/// the object, or 0 where there is no text or it is no such object.
pub open spec fn flag_count(text: Option<&str>) -> usize {
    match text {
        Some(t) => match json_flag_object(t@) {
            Some(m) => m.len() as usize,
            None => 0,
        },
        None => 0,
    }
}

/// What a load of a text table from `text` reports, in the same way.
pub open spec fn text_count(text: Option<&str>) -> usize {
    match text {
        Some(t) => match json_text_object(t@) {
            Some(m) => m.len() as usize,
            None => 0,
        },
        None => 0,
    }
}

/// What a load of the Ligue 1 tokens from `text` reports: the array's length.
pub open spec fn list_count(text: Option<&str>) -> usize {
    match text {
        Some(t) => match json_string_array(t@) {
            Some(l) => l.len() as usize,
            None => 0,
        },
        None => 0,
    }
}

/// A refresh is due at `now` after one at `last`.
pub open spec fn refresh_due(last: u64, now: u64) -> bool {
    now >= last && now - last >= CACHE_REFRESH_INTERVAL_SECS
}

pub open spec fn wrapping_inc(x: u64) -> u64 {
    if x == u64::MAX { 0 } else { (x + 1) as u64 }
}

/// Relies on `SystemTime::now` and `duration_since(UNIX_EPOCH)`: the seconds
/// since the Unix epoch by the system clock, 0 for a clock set before it.
#[verifier::external_body]
fn unix_now_secs() -> (r: u64) {
    std::time::SystemTime::now().duration_since(std::time::UNIX_EPOCH).map(|d| d.as_secs()).unwrap_or(0)
}

impl MarketCaches {
    pub fn new() -> (r: Self)
        ensures
            flag_entries(r.neg_risk) =~= Map::empty(),
            text_entries(r.slugs) =~= Map::empty(),
            text_entries(r.atp_tokens) =~= Map::empty(),
            key_entries(r.ligue1_tokens) =~= Set::empty(),
            flag_entries(r.live_status) =~= Map::empty(),
            r.last_refresh == 0,
            r.stats == zero_stats(),
    {
        MarketCaches {
            neg_risk: flag_new(),
            slugs: text_new(),
            atp_tokens: text_new(),
            ligue1_tokens: key_new(),
            live_status: flag_new(),
            last_refresh: 0,
            stats: CacheStats::default(),
        }
    }

    // ------------------------------------------------------------------------
    // Lookups
    // ------------------------------------------------------------------------

    pub fn is_neg_risk(&self, token_id: &str) -> (r: Option<bool>)
        ensures
            r == flag_lookup(flag_entries(self.neg_risk), token_id@),
    {
        flag_get(&self.neg_risk, token_id)
    }

    pub fn get_slug(&self, token_id: &str) -> (r: Option<String>)
        ensures
            match r {
                Some(s) => text_entries(self.slugs).contains_key(token_id@)
                    && s@ == text_entries(self.slugs)[token_id@],
                None => !text_entries(self.slugs).contains_key(token_id@),
            },
    {
        text_get(&self.slugs, token_id)
    }

    pub fn is_atp_token(&self, token_id: &str) -> (r: bool)
        ensures
            r == text_entries(self.atp_tokens).contains_key(token_id@),
    {
        text_contains(&self.atp_tokens, token_id)
    }

    pub fn is_ligue1_token(&self, token_id: &str) -> (r: bool)
        ensures
            r == key_entries(self.ligue1_tokens).contains(token_id@),
    {
        key_contains(&self.ligue1_tokens, token_id)
    }

    pub fn get_is_live(&self, token_id: &str) -> (r: Option<bool>)
        ensures
            r == flag_lookup(flag_entries(self.live_status), token_id@),
    {
        flag_get(&self.live_status, token_id)
    }

    /// Same as `is_ligue1_token`.
    pub fn is_soccer_token(&self, token_id: &str) -> (r: bool)
        ensures
            r == key_entries(self.ligue1_tokens).contains(token_id@),
    {
        self.is_ligue1_token(token_id)
    }

    /// Same as `is_atp_token`.
    pub fn is_tennis_token(&self, token_id: &str) -> (r: bool)
        ensures
            r == text_entries(self.atp_tokens).contains_key(token_id@),
    {
        self.is_atp_token(token_id)
    }

    pub fn set_neg_risk(&mut self, token_id: String, neg_risk: bool)
        ensures
            flag_entries(final(self).neg_risk) == flag_entries(old(self).neg_risk).insert(token_id@, neg_risk),
            final(self).slugs == old(self).slugs,
            final(self).atp_tokens == old(self).atp_tokens,
            final(self).ligue1_tokens == old(self).ligue1_tokens,
            final(self).live_status == old(self).live_status,
            final(self).last_refresh == old(self).last_refresh,
            final(self).stats == old(self).stats,
    {
        flag_insert(&mut self.neg_risk, token_id, neg_risk);
    }

    // ------------------------------------------------------------------------
    // Refresh
    // ------------------------------------------------------------------------

    /// A refresh is due at `now_secs` (Unix seconds); a clock behind the last
    /// refresh makes none due.
    pub fn needs_refresh_at(&self, now_secs: u64) -> (r: bool)
        ensures
            r == refresh_due(self.last_refresh, now_secs),
    {
        now_secs >= self.last_refresh && now_secs - self.last_refresh >= CACHE_REFRESH_INTERVAL_SECS
    }

    /// A refresh is due now.
    pub fn needs_refresh(&self) -> (r: bool)
        ensures
            exists|now: u64| r == #[trigger] refresh_due(self.last_refresh, now),
    {
        let now = unix_now_secs();
        self.needs_refresh_at(now)
    }

    /// Replaces the neg-risk flags with the JSON object in `text`; returns
    /// how many there are, or `None` (and changes nothing) where the text is
    /// no such object.
    pub fn load_neg_risk(&mut self, text: &str) -> (r: Option<usize>)
        ensures
            match json_flag_object(text@) {
                Some(m) => r == Some(m.len() as usize) && flag_entries(final(self).neg_risk) == m
                    && final(self).stats == (CacheStats { neg_risk_count: m.len() as u64, ..old(self).stats }),
                None => r is None && final(self).neg_risk == old(self).neg_risk && final(self).stats == old(self).stats,
            },
            final(self).slugs == old(self).slugs,
            final(self).atp_tokens == old(self).atp_tokens,
            final(self).ligue1_tokens == old(self).ligue1_tokens,
            final(self).live_status == old(self).live_status,
            final(self).last_refresh == old(self).last_refresh,
    {
        match parse_flag_object(text) {
            Some(table) => {
                let count = flag_len(&table);
                self.neg_risk = table;
                self.stats.neg_risk_count = count as u64;
                Some(count)
            },
            None => None,
        }
    }

    /// Replaces the slugs with the JSON object in `text`; returns how many
    /// there are, or `None` (and changes nothing) where the text is no such
    /// object.
    pub fn load_slugs(&mut self, text: &str) -> (r: Option<usize>)
        ensures
            match json_text_object(text@) {
                Some(m) => r == Some(m.len() as usize) && text_entries(final(self).slugs) == m
                    && final(self).stats == (CacheStats { slug_count: m.len() as u64, ..old(self).stats }),
                None => r is None && final(self).slugs == old(self).slugs && final(self).stats == old(self).stats,
            },
            final(self).neg_risk == old(self).neg_risk,
            final(self).atp_tokens == old(self).atp_tokens,
            final(self).ligue1_tokens == old(self).ligue1_tokens,
            final(self).live_status == old(self).live_status,
            final(self).last_refresh == old(self).last_refresh,
    {
        match parse_text_object(text) {
            Some(table) => {
                let count = text_len(&table);
                self.slugs = table;
                self.stats.slug_count = count as u64;
                Some(count)
            },
            None => None,
        }
    }

    /// Replaces the ATP tokens with the JSON object in `text`; returns how
    /// many there are, or `None` (and changes nothing) where the text is no
    /// such object.
    pub fn load_atp_tokens(&mut self, text: &str) -> (r: Option<usize>)
        ensures
            match json_text_object(text@) {
                Some(m) => r == Some(m.len() as usize) && text_entries(final(self).atp_tokens) == m
                    && final(self).stats == (CacheStats { atp_count: m.len() as u64, ..old(self).stats }),
                None => r is None && final(self).atp_tokens == old(self).atp_tokens && final(self).stats == old(self).stats,
            },
            final(self).neg_risk == old(self).neg_risk,
            final(self).slugs == old(self).slugs,
            final(self).ligue1_tokens == old(self).ligue1_tokens,
            final(self).live_status == old(self).live_status,
            final(self).last_refresh == old(self).last_refresh,
    {
        match parse_text_object(text) {
            Some(table) => {
                let count = text_len(&table);
                self.atp_tokens = table;
                self.stats.atp_count = count as u64;
                Some(count)
            },
            None => None,
        }
    }

    /// Replaces the Ligue 1 tokens with the JSON array in `text`; returns the
    /// array's length, or `None` (and changes nothing) where the text is no
    /// such array.
    pub fn load_ligue1_tokens(&mut self, text: &str) -> (r: Option<usize>)
        ensures
            match json_string_array(text@) {
                Some(l) => r == Some(l.len() as usize) && key_entries(final(self).ligue1_tokens) == l.to_set()
                    && final(self).stats == (CacheStats { ligue1_count: l.len() as u64, ..old(self).stats }),
                None => r is None && final(self).ligue1_tokens == old(self).ligue1_tokens && final(self).stats == old(self).stats,
            },
            final(self).neg_risk == old(self).neg_risk,
            final(self).slugs == old(self).slugs,
            final(self).atp_tokens == old(self).atp_tokens,
            final(self).live_status == old(self).live_status,
            final(self).last_refresh == old(self).last_refresh,
    {
        match parse_string_array(text) {
            Some(tokens) => {
                let ghost list = json_string_array(text@)->0;
                let mut table = key_new();
                let mut i: usize = 0;
                while i < tokens.len()
                    invariant
                        i <= tokens@.len(),
                        tokens@.len() == list.len(),
                        forall|j: int| 0 <= j < tokens@.len() ==> #[trigger] tokens@[j]@ == list[j],
                        key_entries(table) == list.take(i as int).to_set(),
                    decreases tokens@.len() - i,
                {
                    proof {
                        assert(list.take(i + 1) == list.take(i as int).push(list[i as int]));
                        list.take(i as int).lemma_push_to_set_commute(list[i as int]);
                    }
                    key_insert(&mut table, tokens[i].clone());
                    i = i + 1;
                }
                proof {
                    assert(list.take(i as int) == list);
                }
                let count = tokens.len();
                self.ligue1_tokens = table;
                self.stats.ligue1_count = count as u64;
                Some(count)
            },
            None => None,
        }
    }

    /// Replaces the live statuses with the JSON object in `text`; returns how
    /// many there are, or `None` (and changes nothing) where the text is no
    /// such object.
    pub fn load_live_status(&mut self, text: &str) -> (r: Option<usize>)
        ensures
            match json_flag_object(text@) {
                Some(m) => r == Some(m.len() as usize) && flag_entries(final(self).live_status) == m
                    && final(self).stats == (CacheStats { live_count: m.len() as u64, ..old(self).stats }),
                None => r is None && final(self).live_status == old(self).live_status && final(self).stats == old(self).stats,
            },
            final(self).neg_risk == old(self).neg_risk,
            final(self).slugs == old(self).slugs,
            final(self).atp_tokens == old(self).atp_tokens,
            final(self).ligue1_tokens == old(self).ligue1_tokens,
            final(self).last_refresh == old(self).last_refresh,
    {
        match parse_flag_object(text) {
            Some(table) => {
                let count = flag_len(&table);
                self.live_status = table;
                self.stats.live_count = count as u64;
                Some(count)
            },
            None => None,
        }
    }

    /// Notes a refresh that finished at `now_secs` and took `elapsed_ms`.
    pub fn record_refresh(&mut self, now_secs: u64, elapsed_ms: u64)
        ensures
            final(self).last_refresh == now_secs,
            final(self).stats == (CacheStats {
                refresh_count: wrapping_inc(old(self).stats.refresh_count),
                last_refresh_duration_ms: elapsed_ms,
                ..old(self).stats
            }),
            final(self).neg_risk == old(self).neg_risk,
            final(self).slugs == old(self).slugs,
            final(self).atp_tokens == old(self).atp_tokens,
            final(self).ligue1_tokens == old(self).ligue1_tokens,
            final(self).live_status == old(self).live_status,
    {
        self.last_refresh = now_secs;
        self.stats.refresh_count = if self.stats.refresh_count == u64::MAX {
            0
        } else {
            self.stats.refresh_count + 1
        };
        self.stats.last_refresh_duration_ms = elapsed_ms;
    }


    /// Loads each table whose JSON text is given, as the `load_*` methods do,
    /// and reports how many entries each brought in (0 for a table left as it
    /// was). The load time is left at 0 for the caller to fill in.
    pub fn load_all(
        &mut self,
        neg_risk: Option<&str>,
        slugs: Option<&str>,
        atp_tokens: Option<&str>,
        ligue1_tokens: Option<&str>,
        live_status: Option<&str>,
    ) -> (r: CacheLoadResult)
        ensures
            r.neg_risk_loaded == flag_count(neg_risk),
            r.slugs_loaded == text_count(slugs),
            r.atp_loaded == text_count(atp_tokens),
            r.ligue1_loaded == list_count(ligue1_tokens),
            r.live_loaded == flag_count(live_status),
            r.load_time_ms == 0,
            if flag_parsed(neg_risk) {
                flag_entries(final(self).neg_risk) == json_flag_object(neg_risk->0@)->0
            } else {
                final(self).neg_risk == old(self).neg_risk
            },
            if text_parsed(slugs) {
                text_entries(final(self).slugs) == json_text_object(slugs->0@)->0
            } else {
                final(self).slugs == old(self).slugs
            },
            if text_parsed(atp_tokens) {
                text_entries(final(self).atp_tokens) == json_text_object(atp_tokens->0@)->0
            } else {
                final(self).atp_tokens == old(self).atp_tokens
            },
            if list_parsed(ligue1_tokens) {
                key_entries(final(self).ligue1_tokens) == json_string_array(ligue1_tokens->0@)->0.to_set()
            } else {
                final(self).ligue1_tokens == old(self).ligue1_tokens
            },
            if flag_parsed(live_status) {
                flag_entries(final(self).live_status) == json_flag_object(live_status->0@)->0
            } else {
                final(self).live_status == old(self).live_status
            },
            final(self).stats == (CacheStats {
                neg_risk_count: if flag_parsed(neg_risk) { json_flag_object(neg_risk->0@)->0.len() as u64 } else { old(self).stats.neg_risk_count },
                slug_count: if text_parsed(slugs) { json_text_object(slugs->0@)->0.len() as u64 } else { old(self).stats.slug_count },
                atp_count: if text_parsed(atp_tokens) { json_text_object(atp_tokens->0@)->0.len() as u64 } else { old(self).stats.atp_count },
                ligue1_count: if list_parsed(ligue1_tokens) { json_string_array(ligue1_tokens->0@)->0.len() as u64 } else { old(self).stats.ligue1_count },
                live_count: if flag_parsed(live_status) { json_flag_object(live_status->0@)->0.len() as u64 } else { old(self).stats.live_count },
                ..old(self).stats
            }),
            final(self).last_refresh == old(self).last_refresh,
    {
        let mut result = CacheLoadResult::default();
        if let Some(text) = neg_risk {
            if let Some(n) = self.load_neg_risk(text) {
                result.neg_risk_loaded = n;
            }
        }
        if let Some(text) = slugs {
            if let Some(n) = self.load_slugs(text) {
                result.slugs_loaded = n;
            }
        }
        if let Some(text) = atp_tokens {
            if let Some(n) = self.load_atp_tokens(text) {
                result.atp_loaded = n;
            }
        }
        if let Some(text) = ligue1_tokens {
            if let Some(n) = self.load_ligue1_tokens(text) {
                result.ligue1_loaded = n;
            }
        }
        if let Some(text) = live_status {
            if let Some(n) = self.load_live_status(text) {
                result.live_loaded = n;
            }
        }
        result
    }

}

// ============================================================================
// Lookups on a cache handed in
// ============================================================================

pub fn get_slug(caches: &MarketCaches, token_id: &str) -> (r: Option<String>)
    ensures
        match r {
            Some(s) => text_entries(caches.slugs).contains_key(token_id@)
                && s@ == text_entries(caches.slugs)[token_id@],
            None => !text_entries(caches.slugs).contains_key(token_id@),
        },
{
    caches.get_slug(token_id)
}

pub fn is_neg_risk(caches: &MarketCaches, token_id: &str) -> (r: Option<bool>)
    ensures
        r == flag_lookup(flag_entries(caches.neg_risk), token_id@),
{
    caches.is_neg_risk(token_id)
}

pub fn get_is_live(caches: &MarketCaches, token_id: &str) -> (r: Option<bool>)
    ensures
        r == flag_lookup(flag_entries(caches.live_status), token_id@),
{
    caches.get_is_live(token_id)
}

} // verus!
