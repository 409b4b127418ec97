//! Trade-safety guard for an automated execution agent on prediction-market
//! order books, with the market metadata lookup tables that go with it.

pub mod risk_guard;
pub mod guard_lemmas;
pub mod market_cache;
