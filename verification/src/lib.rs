//! A multi-signature authorization and execution engine for a shared
//! custodial fund, together with the small pure helpers of its sibling
//! components (auction pricing, revenue splitting, lottery selection).
//!
//! The wallet decides whether a proposed transfer of value has gathered
//! sufficient weighted approval and, once approved, releases it exactly once
//! under replay-safety, time-delay and daily-cap constraints.  All state is
//! held in an explicit aggregate; the host environment supplies the clock,
//! authenticates callers, and performs the asset transfers that the engine
//! hands back as plain values.

pub mod auction;
pub mod escrow;
pub mod invariants;
pub mod laws;
pub mod model;
pub mod storage_types;
pub mod vrf;
pub mod wallet;
