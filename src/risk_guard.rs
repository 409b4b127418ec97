//! Risk management and safety guard for trade execution.
//!
//! Sizes are whole shares; prices are micro-USD (millionths of a dollar) per
//! share, so a depth, price times size, is in micro-USD. Times are
//! milliseconds on a monotonic clock.
use rustc_hash::FxHashMap;
use vstd::prelude::*;

verus! {

// =============================================================================
// Type definitions
// =============================================================================

/// The side of the book that a proposed trade takes liquidity from.
#[derive(Clone, Copy, PartialEq, Eq, Structural, Debug)]
pub enum TradeSide {
    Buy,
    Sell,
}

/// What the guard decides about a proposed trade.
#[derive(Clone, Copy, PartialEq, Eq, Structural, Debug)]
pub enum SafetyDecision {
    Allow,
    Block,
    /// The caller must fetch the book and confirm with `check_with_book`.
    FetchBook,
}

/// Why the guard decided as it did, with the data that goes with each reason.
#[derive(Clone, Copy, PartialEq, Eq, Structural, Debug)]
pub enum SafetyReason {
    Tripped { secs_left: u32 },
    SmallTrade,
    SeqOk { count: u8 },
    SeqNeedBook { count: u8 },
    /// `depth_usd` is the depth in whole dollars, capped at 65535.
    Trap { seq: u8, depth_usd: u16 },
    /// `depth_usd` is the depth in whole dollars, capped at 65535.
    DepthOk { seq: u8, depth_usd: u16 },
    /// Never produced by the guard: for callers whose book fetch failed.
    BookFetchFailed,
}

pub open spec fn reason_label(r: SafetyReason) -> Seq<char> {
    match r {
        SafetyReason::Tripped { .. } => "TRIPPED"@,
        SafetyReason::SmallTrade => "SMALL_TRADE"@,
        SafetyReason::SeqOk { .. } => "SEQ_OK"@,
        SafetyReason::SeqNeedBook { .. } => "SEQ_NEED_BOOK"@,
        SafetyReason::Trap { .. } => "TRAP"@,
        SafetyReason::DepthOk { .. } => "DEPTH_OK"@,
        SafetyReason::BookFetchFailed => "BOOK_FETCH_FAILED"@,
    }
}

impl SafetyReason {
    /// The reason's tag, as it appears in logs.
    pub fn as_str(&self) -> (r: &'static str)
        ensures
            r@ == reason_label(*self),
    {
        match self {
            SafetyReason::Tripped { .. } => "TRIPPED",
            SafetyReason::SmallTrade => "SMALL_TRADE",
            SafetyReason::SeqOk { .. } => "SEQ_OK",
            SafetyReason::SeqNeedBook { .. } => "SEQ_NEED_BOOK",
            SafetyReason::Trap { .. } => "TRAP",
            SafetyReason::DepthOk { .. } => "DEPTH_OK",
            SafetyReason::BookFetchFailed => "BOOK_FETCH_FAILED",
        }
    }
}

/// The outcome of one evaluation.
#[derive(Clone, Copy, PartialEq, Eq, Structural, Debug)]
pub struct SafetyEvaluation {
    pub decision: SafetyDecision,
    pub reason: SafetyReason,
    pub consecutive_large: u8,
}


/// Micro-USD in one dollar.
pub const MICROS_PER_USD: u128 = 1_000_000;

// =============================================================================
// Config
// =============================================================================

/// Thresholds of the guard, fixed when it is built.
#[derive(Clone, Copy, PartialEq, Eq, Structural, Debug)]
pub struct RiskGuardConfig {
    /// A trade of at least this many shares is large.
    pub large_trade_shares: u64,
    /// Number of large trades within the window that asks for book confirmation.
    pub consecutive_trigger: u8,
    /// Length of the sliding window, in milliseconds.
    pub sequence_window_ms: u64,
    /// Least depth beyond the adjusted threshold price that is not a trap,
    /// in micro-USD (USD 200 is 200_000_000).
    pub min_depth_beyond: u128,
    /// Length of a cooldown, in milliseconds.
    pub trip_duration_ms: u64,
}

impl Default for RiskGuardConfig {
    fn default() -> (r: Self)
        ensures
            r.large_trade_shares == 2000,
            r.consecutive_trigger == 5,
            r.sequence_window_ms == 40_000,
            r.min_depth_beyond == 200 * MICROS_PER_USD,
            r.trip_duration_ms == 5 * 60 * 60 * 1000,
    {
        RiskGuardConfig {
            large_trade_shares: 2000,
            consecutive_trigger: 5,
            sequence_window_ms: 40_000,
            min_depth_beyond: 200 * MICROS_PER_USD,
            trip_duration_ms: 5 * 60 * 60 * 1000,
        }
    }
}

// =============================================================================
// Per-instrument state
// =============================================================================

/// Recent large trades as (time, shares), and the end of a cooldown.
pub type TokenModel = (Seq<(u64, u64)>, Option<u64>);

/// The guard's state for one instrument.
#[derive(Clone, Debug)]
struct TokenState {
    large_trades: Vec<(u64, u64)>,
    tripped_until: Option<u64>,
}

impl View for TokenState {
    type V = TokenModel;

    closed spec fn view(&self) -> TokenModel {
        (self.large_trades@, self.tripped_until)
    }
}

impl TokenState {
    fn new() -> (r: Self)
        ensures
            r@ == fresh_state(),
    {
        TokenState { large_trades: Vec::new(), tripped_until: None }
    }
}

pub open spec fn fresh_state() -> TokenModel {
    (Seq::empty(), None)
}

/// The per-instrument states, keyed by instrument id.
#[verifier::external_body]
pub struct TokenTable {
    map: FxHashMap<String, TokenState>,
}

/// What a `TokenTable` holds.
pub uninterp spec fn token_entries(t: TokenTable) -> Map<Seq<char>, TokenModel>;

/// Relies on `FxHashMap::default`: a new map holds no entry.
#[verifier::external_body]
fn table_new() -> (r: TokenTable)
    ensures
        token_entries(r) =~= Map::empty(),
{
    TokenTable { map: FxHashMap::default() }
}

/// Relies on `HashMap::get` of an `FxHashMap`: a clone of the value stored
/// under the key, if there is one.
#[verifier::external_body]
fn table_get(t: &TokenTable, id: &str) -> (r: Option<TokenState>)
    ensures
        match r {
            Some(s) => token_entries(*t).contains_key(id@) && s@ == token_entries(*t)[id@],
            None => !token_entries(*t).contains_key(id@),
        },
{
    t.map.get(id).cloned()
}

/// Relies on `HashMap::insert` of an `FxHashMap`: the key maps to the value
/// afterwards, and every other key keeps its value.
#[verifier::external_body]
fn table_put(t: &mut TokenTable, id: &str, s: TokenState)
    ensures
        token_entries(*final(t)) == token_entries(*old(t)).insert(id@, s@),
{
    t.map.insert(id.to_string(), s);
}

// =============================================================================
// Model of an evaluation
// =============================================================================

/// The recorded trade counts toward a sequence ending at `now`.
pub open spec fn counts_at(t: (u64, u64), now: u64, window: u64, threshold: u64) -> bool {
    t.0 + window > now && t.1 >= threshold
}

/// Number of recorded trades that count toward a sequence ending at `now`.
pub open spec fn count_large(trades: Seq<(u64, u64)>, now: u64, window: u64, threshold: u64) -> nat
    decreases trades.len(),
{
    if trades.len() == 0 {
        0
    } else {
        count_large(trades.take(trades.len() - 1), now, window, threshold) + if counts_at(
            trades.last(),
            now,
            window,
            threshold,
        ) {
            1nat
        } else {
            0nat
        }
    }
}

/// The recorded trades not older than the window ending at `now` (an entry
/// exactly at the start of the window stays).
pub open spec fn in_window(trades: Seq<(u64, u64)>, now: u64, window: u64) -> Seq<(u64, u64)>
    decreases trades.len(),
{
    if trades.len() == 0 {
        trades
    } else {
        let rest = in_window(trades.take(trades.len() - 1), now, window);
        if trades.last().0 + window >= now {
            rest.push(trades.last())
        } else {
            rest
        }
    }
}

/// Above this many recorded trades, the ones out of the window are dropped.
pub const PRUNE_ABOVE: usize = 16;

pub open spec fn sat_add(a: u64, b: u64) -> u64 {
    if a + b > u64::MAX { u64::MAX } else { (a + b) as u64 }
}

/// Whole seconds from `now` to `until`, rounded up and capped to `u32`.
pub open spec fn secs_until(until: u64, now: u64) -> u32 {
    let s = (until - now + 999) / 1000;
    if s > u32::MAX { u32::MAX } else { s as u32 }
}

pub open spec fn clamp_count(c: int) -> u8 {
    if c > 255 { 255 } else { c as u8 }
}

/// A depth in micro-USD, as whole dollars capped to `u16`.
pub open spec fn clamp_depth(d: u128) -> u16 {
    let dollars = d / MICROS_PER_USD;
    if dollars > 65535 { 65535 } else { dollars as u16 }
}

pub open spec fn cooldown_active(st: TokenModel, now: u64) -> bool {
    st.1 is Some && now < st.1->0
}

/// The fast-path evaluation of a trade of `shares` at `now` on an instrument
/// in state `st`: the instrument's next state and the outcome.
pub open spec fn fast_eval(cfg: RiskGuardConfig, st: TokenModel, shares: u64, now: u64) -> (TokenModel, SafetyEvaluation) {
    if cooldown_active(st, now) {
        (
            st,
            SafetyEvaluation {
                decision: SafetyDecision::Block,
                reason: SafetyReason::Tripped { secs_left: secs_until(st.1->0, now) },
                consecutive_large: 0,
            },
        )
    } else if shares < cfg.large_trade_shares {
        (
            (st.0, None),
            SafetyEvaluation {
                decision: SafetyDecision::Allow,
                reason: SafetyReason::SmallTrade,
                consecutive_large: 0,
            },
        )
    } else {
        let consecutive = count_large(st.0, now, cfg.sequence_window_ms, cfg.large_trade_shares) + 1;
        let pushed = st.0.push((now, shares));
        let kept = if pushed.len() > PRUNE_ABOVE {
            in_window(pushed, now, cfg.sequence_window_ms)
        } else {
            pushed
        };
        let count = clamp_count(consecutive as int);
        if consecutive >= cfg.consecutive_trigger {
            (
                (kept, None),
                SafetyEvaluation {
                    decision: SafetyDecision::FetchBook,
                    reason: SafetyReason::SeqNeedBook { count },
                    consecutive_large: count,
                },
            )
        } else {
            (
                (kept, None),
                SafetyEvaluation {
                    decision: SafetyDecision::Allow,
                    reason: SafetyReason::SeqOk { count },
                    consecutive_large: count,
                },
            )
        }
    }
}

/// A book depth of `depth` is a trap.
pub open spec fn is_trap(cfg: RiskGuardConfig, depth: u128) -> bool {
    depth < cfg.min_depth_beyond
}

/// The outcome of a book-confirmed evaluation.
pub open spec fn book_eval(cfg: RiskGuardConfig, consecutive: u8, depth: u128) -> SafetyEvaluation {
    if is_trap(cfg, depth) {
        SafetyEvaluation {
            decision: SafetyDecision::Block,
            reason: SafetyReason::Trap { seq: consecutive, depth_usd: clamp_depth(depth) },
            consecutive_large: consecutive,
        }
    } else {
        SafetyEvaluation {
            decision: SafetyDecision::Allow,
            reason: SafetyReason::DepthOk { seq: consecutive, depth_usd: clamp_depth(depth) },
            consecutive_large: consecutive,
        }
    }
}

/// The state of `id` in `states`, or a fresh one where it has none yet.
pub open spec fn state_of(states: Map<Seq<char>, TokenModel>, id: Seq<char>) -> TokenModel {
    if states.contains_key(id) { states[id] } else { fresh_state() }
}

/// `st` with a cooldown that ends `cfg.trip_duration_ms` after `now`.
pub open spec fn tripped(cfg: RiskGuardConfig, st: TokenModel, now: u64) -> TokenModel {
    (st.0, Some(sat_add(now, cfg.trip_duration_ms)))
}

/// One fast-path evaluation at `now` took the states from `pre` to `post`
/// and returned `r`.
pub open spec fn fast_step(
    cfg: RiskGuardConfig,
    pre: Map<Seq<char>, TokenModel>,
    post: Map<Seq<char>, TokenModel>,
    id: Seq<char>,
    shares: u64,
    now: u64,
    r: SafetyEvaluation,
) -> bool {
    let (st, ev) = fast_eval(cfg, state_of(pre, id), shares, now);
    post == pre.insert(id, st) && r == ev
}

/// One book-confirmed evaluation at `now` took the states from `pre` to
/// `post` and returned `r`.
pub open spec fn book_step(
    cfg: RiskGuardConfig,
    pre: Map<Seq<char>, TokenModel>,
    post: Map<Seq<char>, TokenModel>,
    id: Seq<char>,
    consecutive: u8,
    depth: u128,
    now: u64,
    r: SafetyEvaluation,
) -> bool {
    &&& r == book_eval(cfg, consecutive, depth)
    &&& post == if is_trap(cfg, depth) {
        pre.insert(id, tripped(cfg, state_of(pre, id), now))
    } else {
        pre
    }
}

/// A manual trip at `now` took the states from `pre` to `post`.
pub open spec fn trip_step(
    cfg: RiskGuardConfig,
    pre: Map<Seq<char>, TokenModel>,
    post: Map<Seq<char>, TokenModel>,
    id: Seq<char>,
    now: u64,
) -> bool {
    post == if pre.contains_key(id) {
        pre.insert(id, tripped(cfg, pre[id], now))
    } else {
        pre
    }
}

// =============================================================================
// Clock
// =============================================================================

/// `std::time::Instant`, carried through opaque as the guard's clock origin.
#[verifier::external_type_specification]
#[verifier::external_body]
pub struct ExInstant(std::time::Instant);

/// Relies on `Instant::now`: a reading of the monotonic clock.
#[verifier::external_body]
fn clock_start() -> (r: std::time::Instant) {
    std::time::Instant::now()
}

/// Relies on `Instant::elapsed`: the milliseconds since `origin` on the
/// monotonic clock, cut to 64 bits.
#[verifier::external_body]
fn millis_since(origin: &std::time::Instant) -> (r: u64) {
    origin.elapsed().as_millis() as u64
}

// =============================================================================
// Risk guard
// =============================================================================

/// The guard: per-instrument sliding windows of large trades and cooldowns.
pub struct RiskGuard {
    config: RiskGuardConfig,
    tokens: TokenTable,
    origin: std::time::Instant,
}

fn count_large_in_window(trades: &Vec<(u64, u64)>, now: u64, window: u64, threshold: u64) -> (r: usize)
    ensures
        r == count_large(trades@, now, window, threshold),
{
    let mut n: usize = 0;
    let mut i: usize = 0;
    while i < trades.len()
        invariant
            i <= trades@.len(),
            n <= i,
            n == count_large(trades@.take(i as int), now, window, threshold),
        decreases trades@.len() - i,
    {
        let (ts, shares) = trades[i];
        proof {
            assert(trades@.take(i + 1).take(i as int) == trades@.take(i as int));
        }
        if ts as u128 + window as u128 > now as u128 && shares >= threshold {
            n = n + 1;
        }
        i = i + 1;
    }
    proof {
        assert(trades@.take(trades@.len() as int) == trades@);
    }
    n
}

fn retain_in_window(trades: &Vec<(u64, u64)>, now: u64, window: u64) -> (r: Vec<(u64, u64)>)
    ensures
        r@ == in_window(trades@, now, window),
{
    let mut out: Vec<(u64, u64)> = Vec::new();
    let mut i: usize = 0;
    while i < trades.len()
        invariant
            i <= trades@.len(),
            out@ == in_window(trades@.take(i as int), now, window),
        decreases trades@.len() - i,
    {
        let t = trades[i];
        proof {
            assert(trades@.take(i + 1).take(i as int) == trades@.take(i as int));
        }
        if t.0 as u128 + window as u128 >= now as u128 {
            out.push(t);
        }
        i = i + 1;
    }
    proof {
        assert(trades@.take(trades@.len() as int) == trades@);
    }
    out
}

fn trip_end(now: u64, duration: u64) -> (r: u64)
    ensures
        r == sat_add(now, duration),
{
    if now as u128 + duration as u128 > u64::MAX as u128 {
        u64::MAX
    } else {
        now + duration
    }
}

impl RiskGuard {
    /// The configuration the guard was built with.
    pub closed spec fn spec_config(&self) -> RiskGuardConfig {
        self.config
    }

    /// The per-instrument states, keyed by instrument id.
    pub closed spec fn states(&self) -> Map<Seq<char>, TokenModel> {
        token_entries(self.tokens)
    }

    pub fn new(config: RiskGuardConfig) -> (r: Self)
        ensures
            r.spec_config() == config,
            r.states() =~= Map::empty(),
    {
        RiskGuard { config, tokens: table_new(), origin: clock_start() }
    }

    /// The configuration the guard was built with.
    pub fn config(&self) -> (r: &RiskGuardConfig)
        ensures
            *r == self.spec_config(),
    {
        &self.config
    }

    /// Starts a cooldown on an instrument that the guard has seen, as of `now_ms`.
    pub fn trip_at(&mut self, token_id: &str, now_ms: u64)
        ensures
            final(self).spec_config() == old(self).spec_config(),
            trip_step(old(self).spec_config(), old(self).states(), final(self).states(), token_id@, now_ms),
    {
        match table_get(&self.tokens, token_id) {
            Some(mut state) => {
                state.tripped_until = Some(trip_end(now_ms, self.config.trip_duration_ms));
                table_put(&mut self.tokens, token_id, state);
            },
            None => {},
        }
    }

    /// Starts a cooldown on an instrument that the guard has seen, as of now.
    pub fn trip(&mut self, token_id: &str)
        ensures
            final(self).spec_config() == old(self).spec_config(),
            exists|now: u64|
                #[trigger] trip_step(old(self).spec_config(), old(self).states(), final(self).states(), token_id@, now),
    {
        let now = millis_since(&self.origin);
        self.trip_at(token_id, now);
    }

    /// Fast-path evaluation of a trade of `whale_shares` shares at `now_ms`.
    pub fn check_fast_at(&mut self, token_id: &str, whale_shares: u64, now_ms: u64) -> (r: SafetyEvaluation)
        ensures
            final(self).spec_config() == old(self).spec_config(),
            fast_step(old(self).spec_config(), old(self).states(), final(self).states(), token_id@, whale_shares, now_ms, r),
    {
        let mut state = match table_get(&self.tokens, token_id) {
            Some(s) => s,
            None => TokenState::new(),
        };
        if let Some(until) = state.tripped_until {
            if now_ms < until {
                let secs = ((until - now_ms) as u128 + 999) / 1000;
                let secs_left: u32 = if secs > u32::MAX as u128 { u32::MAX } else { secs as u32 };
                table_put(&mut self.tokens, token_id, state);
                return SafetyEvaluation {
                    decision: SafetyDecision::Block,
                    reason: SafetyReason::Tripped { secs_left },
                    consecutive_large: 0,
                };
            }
            state.tripped_until = None;
        }
        if whale_shares < self.config.large_trade_shares {
            table_put(&mut self.tokens, token_id, state);
            return SafetyEvaluation {
                decision: SafetyDecision::Allow,
                reason: SafetyReason::SmallTrade,
                consecutive_large: 0,
            };
        }
        let prior = count_large_in_window(
            &state.large_trades,
            now_ms,
            self.config.sequence_window_ms,
            self.config.large_trade_shares,
        );
        let consecutive: u128 = prior as u128 + 1;
        state.large_trades.push((now_ms, whale_shares));
        if state.large_trades.len() > PRUNE_ABOVE {
            state.large_trades = retain_in_window(&state.large_trades, now_ms, self.config.sequence_window_ms);
        }
        let count: u8 = if consecutive > 255 { 255 } else { consecutive as u8 };
        let trigger = self.config.consecutive_trigger;
        table_put(&mut self.tokens, token_id, state);
        if consecutive >= trigger as u128 {
            SafetyEvaluation {
                decision: SafetyDecision::FetchBook,
                reason: SafetyReason::SeqNeedBook { count },
                consecutive_large: count,
            }
        } else {
            SafetyEvaluation {
                decision: SafetyDecision::Allow,
                reason: SafetyReason::SeqOk { count },
                consecutive_large: count,
            }
        }
    }

    /// Fast-path evaluation of a trade of `whale_shares` shares, now.
    pub fn check_fast(&mut self, token_id: &str, whale_shares: u64) -> (r: SafetyEvaluation)
        ensures
            final(self).spec_config() == old(self).spec_config(),
            exists|now: u64|
                #[trigger] fast_step(old(self).spec_config(), old(self).states(), final(self).states(), token_id@, whale_shares, now, r),
    {
        let now = millis_since(&self.origin);
        self.check_fast_at(token_id, whale_shares, now)
    }

    /// Book-confirmed evaluation at `now_ms`, given the depth beyond the
    /// adjusted threshold price.
    pub fn check_with_book_at(
        &mut self,
        token_id: &str,
        consecutive: u8,
        depth_beyond: u128,
        now_ms: u64,
    ) -> (r: SafetyEvaluation)
        ensures
            final(self).spec_config() == old(self).spec_config(),
            book_step(old(self).spec_config(), old(self).states(), final(self).states(), token_id@, consecutive, depth_beyond, now_ms, r),
    {
        let dollars = depth_beyond / MICROS_PER_USD;
        let depth_usd: u16 = if dollars > 65535 { 65535 } else { dollars as u16 };
        if depth_beyond < self.config.min_depth_beyond {
            let mut state = match table_get(&self.tokens, token_id) {
                Some(s) => s,
                None => TokenState::new(),
            };
            state.tripped_until = Some(trip_end(now_ms, self.config.trip_duration_ms));
            table_put(&mut self.tokens, token_id, state);
            SafetyEvaluation {
                decision: SafetyDecision::Block,
                reason: SafetyReason::Trap { seq: consecutive, depth_usd },
                consecutive_large: consecutive,
            }
        } else {
            SafetyEvaluation {
                decision: SafetyDecision::Allow,
                reason: SafetyReason::DepthOk { seq: consecutive, depth_usd },
                consecutive_large: consecutive,
            }
        }
    }

    /// Book-confirmed evaluation, now.
    pub fn check_with_book(&mut self, token_id: &str, consecutive: u8, depth_beyond: u128) -> (r: SafetyEvaluation)
        ensures
            final(self).spec_config() == old(self).spec_config(),
            exists|now: u64|
                #[trigger] book_step(old(self).spec_config(), old(self).states(), final(self).states(), token_id@, consecutive, depth_beyond, now, r),
    {
        let now = millis_since(&self.origin);
        self.check_with_book_at(token_id, consecutive, depth_beyond, now)
    }
}

// =============================================================================
// Book depth
// =============================================================================

/// The level's price lies beyond the threshold, buffered by half a percent
/// away from it: above 1.005 times it for a buy, below 0.995 times it for a sell.
pub open spec fn beyond(side: TradeSide, price: u32, threshold: u32) -> bool {
    match side {
        TradeSide::Buy => 200 * price > 201 * threshold,
        TradeSide::Sell => 200 * price < 199 * threshold,
    }
}

/// Sum of price times size over the levels beyond the threshold.
pub open spec fn depth_of(side: TradeSide, levels: Seq<(u32, u32)>, threshold: u32) -> nat
    decreases levels.len(),
{
    if levels.len() == 0 {
        0
    } else {
        let l = levels.last();
        depth_of(side, levels.take(levels.len() - 1), threshold) + if beyond(side, l.0, threshold) {
            (l.0 * l.1) as nat
        } else {
            0nat
        }
    }
}

/// Largest product of two `u32` values.
pub const MAX_NOTIONAL: u128 = 0xFFFF_FFFE_0000_0001;

/// Notional depth, in micro-USD, of `levels` (price in micro-USD, size in
/// shares) beyond `threshold` (micro-USD) on `side`.
pub fn calc_liquidity_depth(side: TradeSide, levels: &[(u32, u32)], threshold: u32) -> (r: u128)
    ensures
        r == depth_of(side, levels@, threshold),
{
    let mut total: u128 = 0;
    let mut i: usize = 0;
    while i < levels.len()
        invariant
            i <= levels@.len(),
            total == depth_of(side, levels@.take(i as int), threshold),
            total <= i * MAX_NOTIONAL,
        decreases levels@.len() - i,
    {
        let (price, size) = levels[i];
        proof {
            assert(levels@.take(i + 1).take(i as int) == levels@.take(i as int));
        }
        let is_beyond = match side {
            TradeSide::Buy => 200 * (price as u64) > 201 * (threshold as u64),
            TradeSide::Sell => 200 * (price as u64) < 199 * (threshold as u64),
        };
        if is_beyond {
            proof {
                assert(price * size <= MAX_NOTIONAL) by (nonlinear_arith)
                    requires price <= u32::MAX, size <= u32::MAX;
            }
            let notional = price as u128 * size as u128;
            proof {
                assert(i * MAX_NOTIONAL + MAX_NOTIONAL <= u128::MAX) by (nonlinear_arith)
                    requires i < usize::MAX;
            }
            total = total + notional;
        }
        proof {
            assert((i + 1) * MAX_NOTIONAL == i * MAX_NOTIONAL + MAX_NOTIONAL) by (nonlinear_arith);
        }
        i = i + 1;
    }
    proof {
        assert(levels@.take(levels@.len() as int) == levels@);
    }
    total
}

} // verus!
