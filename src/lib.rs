//! Pooled-wager prediction markets: market lifecycle, two-sided wager pools,
//! authority-gated resolution, exact proportional payouts and refunds.
use vstd::prelude::*;

pub mod abi;
pub mod arith;
pub mod laws;
pub mod market;
pub mod oracle;
pub mod token;

verus! {

} // verus!
