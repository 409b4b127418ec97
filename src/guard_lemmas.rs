//! What holds of every evaluation of the guard and of the depth calculator.
use crate::risk_guard::{
    cooldown_active, count_large, counts_at, depth_of, fast_eval, fast_step, in_window, state_of,
    book_eval, book_step, clamp_depth, is_trap, secs_until,
    RiskGuardConfig, SafetyDecision, SafetyEvaluation, SafetyReason, TokenModel, TradeSide,
};
use vstd::prelude::*;

verus! {

proof fn lemma_count_all(s: Seq<(u64, u64)>, now: u64, window: u64, threshold: u64)
    requires
        forall|i: int| 0 <= i < s.len() ==> counts_at(#[trigger] s[i], now, window, threshold),
    ensures
        count_large(s, now, window, threshold) == s.len(),
    decreases s.len(),
{
    if s.len() > 0 {
        let p = s.take(s.len() - 1);
        assert forall|i: int| 0 <= i < p.len() implies counts_at(#[trigger] p[i], now, window, threshold) by {
            assert(p[i] == s[i]);
        }
        lemma_count_all(p, now, window, threshold);
    }
}

proof fn lemma_count_none(s: Seq<(u64, u64)>, now: u64, window: u64, threshold: u64)
    requires
        forall|i: int| 0 <= i < s.len() ==> !counts_at(#[trigger] s[i], now, window, threshold),
    ensures
        count_large(s, now, window, threshold) == 0,
    decreases s.len(),
{
    if s.len() > 0 {
        let p = s.take(s.len() - 1);
        assert forall|i: int| 0 <= i < p.len() implies !counts_at(#[trigger] p[i], now, window, threshold) by {
            assert(p[i] == s[i]);
        }
        lemma_count_none(p, now, window, threshold);
    }
}

proof fn lemma_in_window_all(s: Seq<(u64, u64)>, now: u64, window: u64)
    requires
        forall|i: int| 0 <= i < s.len() ==> (#[trigger] s[i]).0 + window > now,
    ensures
        in_window(s, now, window) == s,
    decreases s.len(),
{
    if s.len() > 0 {
        let p = s.take(s.len() - 1);
        assert forall|i: int| 0 <= i < p.len() implies (#[trigger] p[i]).0 + window > now by {
            assert(p[i] == s[i]);
        }
        lemma_in_window_all(p, now, window);
        assert(p.push(s.last()) =~= s);
    }
}

/// A trade below the large-trade size on an instrument without an active
/// cooldown is allowed as a small trade, and is not recorded: the recorded
/// trades that later counts are taken over stay as they were.
pub proof fn lemma_small_trade_not_recorded(
    cfg: RiskGuardConfig,
    pre: Map<Seq<char>, TokenModel>,
    post: Map<Seq<char>, TokenModel>,
    id: Seq<char>,
    shares: u64,
    now: u64,
    r: SafetyEvaluation,
)
    requires
        fast_step(cfg, pre, post, id, shares, now, r),
        shares < cfg.large_trade_shares,
        !cooldown_active(state_of(pre, id), now),
    ensures
        r.decision == SafetyDecision::Allow,
        r.reason == SafetyReason::SmallTrade,
        r.consecutive_large == 0,
        post.contains_key(id),
        post[id].0 == state_of(pre, id).0,
{
}

/// While a cooldown is active every fast-path evaluation is blocked as
/// tripped, whatever the size, with a positive number of seconds left, and
/// the instrument's state stays as it was.
pub proof fn lemma_cooldown_blocks(
    cfg: RiskGuardConfig,
    pre: Map<Seq<char>, TokenModel>,
    post: Map<Seq<char>, TokenModel>,
    id: Seq<char>,
    shares: u64,
    now: u64,
    r: SafetyEvaluation,
)
    requires
        fast_step(cfg, pre, post, id, shares, now, r),
        cooldown_active(state_of(pre, id), now),
    ensures
        r.decision == SafetyDecision::Block,
        r.reason is Tripped,
        r.reason->secs_left > 0,
        r.consecutive_large == 0,
        post[id] == state_of(pre, id),
{
}

/// Once the end of a cooldown is reached, the next fast-path evaluation
/// clears it and evaluates as if no cooldown had been set.
pub proof fn lemma_cooldown_expires(
    cfg: RiskGuardConfig,
    pre: Map<Seq<char>, TokenModel>,
    post: Map<Seq<char>, TokenModel>,
    id: Seq<char>,
    shares: u64,
    now: u64,
    r: SafetyEvaluation,
)
    requires
        fast_step(cfg, pre, post, id, shares, now, r),
        state_of(pre, id).1 is Some,
        now >= state_of(pre, id).1->0,
    ensures
        post[id].1 is None,
        (post[id], r) == fast_eval(cfg, (state_of(pre, id).0, None), shares, now),
{
}

/// A large trade on an instrument whose recorded trades are all older than
/// the window counts alone.
pub proof fn lemma_window_expiry(
    cfg: RiskGuardConfig,
    pre: Map<Seq<char>, TokenModel>,
    post: Map<Seq<char>, TokenModel>,
    id: Seq<char>,
    shares: u64,
    now: u64,
    r: SafetyEvaluation,
)
    requires
        fast_step(cfg, pre, post, id, shares, now, r),
        shares >= cfg.large_trade_shares,
        !cooldown_active(state_of(pre, id), now),
        forall|i: int|
            0 <= i < state_of(pre, id).0.len() ==> (#[trigger] state_of(pre, id).0[i]).0
                + cfg.sequence_window_ms <= now,
    ensures
        r.consecutive_large == 1,
        r.decision == (if cfg.consecutive_trigger <= 1 {
            SafetyDecision::FetchBook
        } else {
            SafetyDecision::Allow
        }),
{
    let s = state_of(pre, id).0;
    assert forall|i: int| 0 <= i < s.len() implies !counts_at(
        #[trigger] s[i],
        now,
        cfg.sequence_window_ms,
        cfg.large_trade_shares,
    ) by {}
    lemma_count_none(s, now, cfg.sequence_window_ms, cfg.large_trade_shares);
}

/// The states and outcomes of fast-path evaluations of the proposed
/// (time, shares) trades, one after another, on one instrument.
pub open spec fn fast_run(cfg: RiskGuardConfig, st: TokenModel, trades: Seq<(u64, u64)>) -> (
    TokenModel,
    Seq<SafetyEvaluation>,
)
    decreases trades.len(),
{
    if trades.len() == 0 {
        (st, Seq::empty())
    } else {
        let (s1, evs) = fast_run(cfg, st, trades.take(trades.len() - 1));
        let (s2, ev) = fast_eval(cfg, s1, trades.last().1, trades.last().0);
        (s2, evs.push(ev))
    }
}

/// The outcome expected of the `i`-th large trade, counting from 0, of an
/// unbroken run within the window.
pub open spec fn run_outcome(cfg: RiskGuardConfig, i: int) -> SafetyEvaluation {
    if i + 1 >= cfg.consecutive_trigger {
        SafetyEvaluation {
            decision: SafetyDecision::FetchBook,
            reason: SafetyReason::SeqNeedBook { count: (i + 1) as u8 },
            consecutive_large: (i + 1) as u8,
        }
    } else {
        SafetyEvaluation {
            decision: SafetyDecision::Allow,
            reason: SafetyReason::SeqOk { count: (i + 1) as u8 },
            consecutive_large: (i + 1) as u8,
        }
    }
}

pub open spec fn unbroken_run(cfg: RiskGuardConfig, st: TokenModel, trades: Seq<(u64, u64)>) -> bool {
    &&& trades.len() >= 1
    &&& st.0.len() == 0
    &&& !cooldown_active(st, trades[0].0)
    &&& forall|i: int| 0 <= i < trades.len() ==> (#[trigger] trades[i]).1 >= cfg.large_trade_shares
    &&& forall|i: int, j: int| 0 <= i <= j < trades.len() ==> #[trigger] trades[i].0 <= #[trigger] trades[j].0
    &&& trades.last().0 < trades[0].0 + cfg.sequence_window_ms
}

proof fn lemma_run_prefix(cfg: RiskGuardConfig, st: TokenModel, trades: Seq<(u64, u64)>, k: int)
    requires
        unbroken_run(cfg, st, trades),
        trades.len() <= 255,
        0 <= k <= trades.len(),
    ensures
        ({
            let (s, evs) = fast_run(cfg, st, trades.take(k));
            &&& s.0 == trades.take(k)
            &&& k == 0 ==> s == st
            &&& k > 0 ==> s.1 is None
            &&& evs.len() == k
            &&& forall|i: int| 0 <= i < k ==> evs[i] == run_outcome(cfg, i)
        }),
    decreases k,
{
    if k > 0 {
        let n = trades.len();
        let w = cfg.sequence_window_ms;
        let now = trades[k - 1].0;
        lemma_run_prefix(cfg, st, trades, k - 1);
        let t = trades.take(k);
        assert(t.take(k - 1) == trades.take(k - 1));
        assert(t.last() == trades[k - 1]);
        let prior = trades.take(k - 1);
        assert(trades[k - 1].0 <= trades[n - 1].0);
        assert forall|i: int| 0 <= i < t.len() implies (#[trigger] t[i]).0 + w > now by {
            assert(trades[0].0 <= trades[i].0);
        }
        assert forall|i: int| 0 <= i < prior.len() implies counts_at(
            #[trigger] prior[i],
            now,
            w,
            cfg.large_trade_shares,
        ) by {
            assert(prior[i] == t[i]);
            assert(prior[i] == trades[i]);
        }
        lemma_count_all(prior, now, w, cfg.large_trade_shares);
        assert(prior.push(trades[k - 1]) =~= t);
        lemma_in_window_all(t, now, w);
    }
}

/// A run of exactly `consecutive_trigger` large trades within the window on
/// an instrument with nothing recorded is allowed with counts 1, 2, ... on
/// all but the last, and asks for the book on the last.
pub proof fn lemma_escalation(cfg: RiskGuardConfig, st: TokenModel, trades: Seq<(u64, u64)>)
    requires
        unbroken_run(cfg, st, trades),
        trades.len() == cfg.consecutive_trigger,
    ensures
        ({
            let evs = fast_run(cfg, st, trades).1;
            &&& evs.len() == trades.len()
            &&& forall|i: int|
                0 <= i < trades.len() - 1 ==> #[trigger] evs[i] == SafetyEvaluation {
                    decision: SafetyDecision::Allow,
                    reason: SafetyReason::SeqOk { count: (i + 1) as u8 },
                    consecutive_large: (i + 1) as u8,
                }
            &&& evs.last() == SafetyEvaluation {
                decision: SafetyDecision::FetchBook,
                reason: SafetyReason::SeqNeedBook { count: trades.len() as u8 },
                consecutive_large: trades.len() as u8,
            }
        }),
{
    lemma_run_prefix(cfg, st, trades, trades.len() as int);
    assert(trades.take(trades.len() as int) == trades);
}

/// The guard never reports a failed book fetch itself: that reason is left to
/// callers whose fetch failed.
pub proof fn lemma_no_fetch_failure_from_guard(
    cfg: RiskGuardConfig,
    st: TokenModel,
    shares: u64,
    now: u64,
    consecutive: u8,
    depth: u128,
)
    ensures
        !(fast_eval(cfg, st, shares, now).1.reason is BookFetchFailed),
        !(book_eval(cfg, consecutive, depth).reason is BookFetchFailed),
{
}

/// After a large trade on an instrument without an active cooldown, the
/// trade just made is the last one recorded, whether or not older entries
/// were pruned.
pub proof fn lemma_large_trade_recorded(
    cfg: RiskGuardConfig,
    pre: Map<Seq<char>, TokenModel>,
    post: Map<Seq<char>, TokenModel>,
    id: Seq<char>,
    shares: u64,
    now: u64,
    r: SafetyEvaluation,
)
    requires
        fast_step(cfg, pre, post, id, shares, now, r),
        shares >= cfg.large_trade_shares,
        !cooldown_active(state_of(pre, id), now),
    ensures
        post[id].0.len() > 0,
        post[id].0.last() == (now, shares),
{
    let pushed = state_of(pre, id).0.push((now, shares));
    assert(pushed.take(pushed.len() - 1) == state_of(pre, id).0);
}

/// A book confirmation that finds a trap sets a cooldown of the configured
/// length and keeps the recorded trades; every fast-path evaluation before
/// that cooldown ends is then blocked as tripped, with a positive number of
/// seconds left that is at most the cooldown's length in seconds, rounded up.
pub proof fn lemma_trap_then_blocked(
    cfg: RiskGuardConfig,
    pre: Map<Seq<char>, TokenModel>,
    mid: Map<Seq<char>, TokenModel>,
    post: Map<Seq<char>, TokenModel>,
    id: Seq<char>,
    consecutive: u8,
    depth: u128,
    tc: u64,
    shares: u64,
    now: u64,
    r1: SafetyEvaluation,
    r2: SafetyEvaluation,
)
    requires
        book_step(cfg, pre, mid, id, consecutive, depth, tc, r1),
        is_trap(cfg, depth),
        tc + cfg.trip_duration_ms <= u64::MAX,
        fast_step(cfg, mid, post, id, shares, now, r2),
        tc <= now < tc + cfg.trip_duration_ms,
    ensures
        r1 == (SafetyEvaluation {
            decision: SafetyDecision::Block,
            reason: SafetyReason::Trap { seq: consecutive, depth_usd: clamp_depth(depth) },
            consecutive_large: consecutive,
        }),
        mid[id] == (state_of(pre, id).0, Some((tc + cfg.trip_duration_ms) as u64)),
        r2.decision == SafetyDecision::Block,
        r2.reason is Tripped,
        0 < r2.reason->secs_left <= secs_until((tc + cfg.trip_duration_ms) as u64, tc),
        r2.consecutive_large == 0,
        post[id] == mid[id],
{
    let until = (tc + cfg.trip_duration_ms) as u64;
    assert((until - now + 999) / 1000 <= (until - tc + 999) / 1000) by (nonlinear_arith)
        requires until - now <= until - tc;
    assert((until - now + 999) / 1000 > 0) by (nonlinear_arith)
        requires until - now > 0;
}

/// A book confirmation that finds enough depth allows the trade and changes
/// no state, so a following small trade on an instrument without an active
/// cooldown is allowed as a small trade, and no cooldown is left.
pub proof fn lemma_deep_book_no_cooldown(
    cfg: RiskGuardConfig,
    pre: Map<Seq<char>, TokenModel>,
    mid: Map<Seq<char>, TokenModel>,
    post: Map<Seq<char>, TokenModel>,
    id: Seq<char>,
    consecutive: u8,
    depth: u128,
    tc: u64,
    shares: u64,
    now: u64,
    r1: SafetyEvaluation,
    r2: SafetyEvaluation,
)
    requires
        book_step(cfg, pre, mid, id, consecutive, depth, tc, r1),
        !is_trap(cfg, depth),
        !cooldown_active(state_of(pre, id), now),
        fast_step(cfg, mid, post, id, shares, now, r2),
        shares < cfg.large_trade_shares,
    ensures
        r1 == (SafetyEvaluation {
            decision: SafetyDecision::Allow,
            reason: SafetyReason::DepthOk { seq: consecutive, depth_usd: clamp_depth(depth) },
            consecutive_large: consecutive,
        }),
        mid == pre,
        r2 == (SafetyEvaluation {
            decision: SafetyDecision::Allow,
            reason: SafetyReason::SmallTrade,
            consecutive_large: 0,
        }),
        post[id].1 is None,
{
}

proof fn lemma_run_concat(cfg: RiskGuardConfig, st: TokenModel, a: Seq<(u64, u64)>, b: Seq<(u64, u64)>)
    ensures
        fast_run(cfg, st, a + b) == ({
            let (s1, e1) = fast_run(cfg, st, a);
            let (s2, e2) = fast_run(cfg, s1, b);
            (s2, e1 + e2)
        }),
    decreases b.len(),
{
    if b.len() == 0 {
        assert(a + b =~= a);
        assert(fast_run(cfg, st, a).1 + Seq::<SafetyEvaluation>::empty() =~= fast_run(cfg, st, a).1);
    } else {
        let b1 = b.take(b.len() - 1);
        lemma_run_concat(cfg, st, a, b1);
        assert((a + b).take((a + b).len() - 1) =~= a + b1);
        assert((a + b).last() == b.last());
        let e1 = fast_run(cfg, st, a).1;
        let e2 = fast_run(cfg, fast_run(cfg, st, a).0, b1).1;
        let e = fast_eval(cfg, fast_run(cfg, fast_run(cfg, st, a).0, b1).0, b.last().1, b.last().0).1;
        assert((e1 + e2).push(e) =~= e1 + e2.push(e));
    }
}

/// Two states with the same recorded trades, neither with a cooldown active
/// at the first call, give the same outcomes on every run of calls, and the
/// same state after a nonempty one.
proof fn lemma_run_same_trades(cfg: RiskGuardConfig, a: TokenModel, b: TokenModel, calls: Seq<(u64, u64)>)
    requires
        a.0 == b.0,
        calls.len() > 0 ==> !cooldown_active(a, calls[0].0) && !cooldown_active(b, calls[0].0),
    ensures
        fast_run(cfg, a, calls).1 == fast_run(cfg, b, calls).1,
        calls.len() > 0 ==> fast_run(cfg, a, calls).0 == fast_run(cfg, b, calls).0,
    decreases calls.len(),
{
    if calls.len() > 1 {
        let c1 = calls.take(calls.len() - 1);
        assert(c1[0] == calls[0]);
        lemma_run_same_trades(cfg, a, b, c1);
    } else if calls.len() == 1 {
        assert(calls.take(0) =~= Seq::<(u64, u64)>::empty());
        assert(fast_run(cfg, a, calls.take(0)).0 == a);
        assert(fast_run(cfg, b, calls.take(0)).0 == b);
        assert(calls.last() == calls[0]);
        let (sa, ea) = fast_eval(cfg, a, calls[0].1, calls[0].0);
        let (sb, eb) = fast_eval(cfg, b, calls[0].1, calls[0].0);
        assert(sa == sb && ea == eb);
    }
}

/// A small trade made where no cooldown is active is invisible to every later
/// call made no earlier than it: the outcomes of the calls after it are the
/// same as if it had not been made, and it is itself allowed as small.
pub proof fn lemma_small_trade_invisible(
    cfg: RiskGuardConfig,
    st: TokenModel,
    before: Seq<(u64, u64)>,
    small: (u64, u64),
    after: Seq<(u64, u64)>,
)
    requires
        small.1 < cfg.large_trade_shares,
        !cooldown_active(fast_run(cfg, st, before).0, small.0),
        forall|i: int| 0 <= i < after.len() ==> small.0 <= (#[trigger] after[i]).0,
    ensures
        ({
            let tail = fast_run(cfg, fast_run(cfg, st, before).0, after).1;
            &&& fast_run(cfg, st, before + after).1 == fast_run(cfg, st, before).1 + tail
            &&& fast_run(cfg, st, before.push(small) + after).1 == fast_run(cfg, st, before).1.push(
                SafetyEvaluation {
                    decision: SafetyDecision::Allow,
                    reason: SafetyReason::SmallTrade,
                    consecutive_large: 0,
                },
            ) + tail
        }),
{
    let s1 = fast_run(cfg, st, before).0;
    let bp = before.push(small);
    assert(bp.take(bp.len() - 1) =~= before);
    lemma_run_concat(cfg, st, before, after);
    lemma_run_concat(cfg, st, bp, after);
    if after.len() > 0 {
        assert(small.0 <= after[0].0);
    }
    lemma_run_same_trades(cfg, s1, (s1.0, None), after);
}

/// The depth of an empty book is zero.
pub proof fn lemma_depth_empty(side: TradeSide, threshold: u32)
    ensures
        depth_of(side, Seq::empty(), threshold) == 0,
{
}

/// The depth is a function of the side, the levels and the threshold: two
/// results for the same inputs are equal.
pub proof fn lemma_depth_deterministic(
    side: TradeSide,
    levels: Seq<(u32, u32)>,
    threshold: u32,
    r1: u128,
    r2: u128,
)
    requires
        r1 == depth_of(side, levels, threshold),
        r2 == depth_of(side, levels, threshold),
    ensures
        r1 == r2,
{
}

/// A level priced exactly at the threshold adds nothing to the depth, on
/// either side.
pub proof fn lemma_level_at_threshold_excluded(
    side: TradeSide,
    levels: Seq<(u32, u32)>,
    threshold: u32,
    size: u32,
)
    ensures
        depth_of(side, levels.push((threshold, size)), threshold) == depth_of(side, levels, threshold),
{
    let s = levels.push((threshold, size));
    assert(s.take(s.len() - 1) == levels);
}

} // verus!
