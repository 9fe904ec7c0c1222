//! Read-only valuation library for an on-chain lending protocol's account
//! buffers: fixed-offset binary decoding of reserve and obligation records,
//! fixed-point arithmetic, and the insolvency check that gates borrow and
//! withdraw actions.

pub mod bytes;
pub mod decimal;
pub mod error;
pub mod obligation;
pub mod reserve;

use vstd::prelude::*;

verus! {

/// Scale factor of the fixed-point representation: every decimal value is
/// stored as its underlying integer times `WAD`.
pub const WAD: u64 = 1_000_000_000_000_000_000;

/// Byte offset of the staleness flag, the same in reserve and obligation
/// buffers as the external format lays them out.
pub const STALE_FLAG_OFF: usize = 9;

} // verus!
