//! A rotating-savings-group ("ajo"/"esusu") ledger engine.
//!
//! A group of participants each contribute a fixed amount every cycle, and in
//! each cycle exactly one member receives the pooled total, rotating in join
//! order until every member has been paid once. The crate verifies the group
//! lifecycle state machine and its contribution/payout bookkeeping: membership
//! limits, exactly-once-per-cycle contributions, one payout per member,
//! monotonic cycle advancement, and irrevocable cancellation.
//!
//! The persistent key-value store, caller authentication, clock, and event
//! transport of the hosting environment are out of scope: the store is modeled
//! as explicit in-memory state, timestamps enter as plain arguments, callers
//! are trusted once the host has authenticated them, and emitted events are
//! recorded as plain values.

pub mod errors;
pub mod types;
pub mod storage;
pub mod utils;
pub mod lifecycle;
pub mod laws;
