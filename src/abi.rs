//! Shared market data: predictions, outcomes, the market record, bets,
//! payout records, the platform constants and the payout formula.
use vstd::prelude::*;

use crate::arith::{mul_div_floor, mul_div_spec};

verus! {

/// A token amount, in the smallest indivisible unit.
pub type Amount = u128;

/// A point in time, in microseconds.
pub type Timestamp = u64;

/// The identity of an account holder or caller.
pub type AccountOwner = u64;

/// Minimum bet amount.
pub const MIN_BET_AMOUNT: u128 = 100_000;

/// Fee charged to a market's creator.
pub const MARKET_CREATION_FEE: u128 = 1_000_000;

/// Share of the total pool kept by the platform, in percent.
pub const PLATFORM_FEE_PERCENT: u8 = 5;

/// Minimum market duration (one minute).
pub const MIN_MARKET_DURATION_MICROS: u64 = 60_000_000;

/// Maximum market duration (one day).
pub const MAX_MARKET_DURATION_MICROS: u64 = 86_400_000_000;

/// Microseconds in one minute.
pub const MICROS_PER_MINUTE: u64 = 60_000_000;

/// Ties an application's command type to the type of its answers.
pub trait ContractAbi {
    /// The commands the application accepts.
    type Operation;
    /// What a successful command returns.
    type Response;
}

/// Which way a bettor expects the market to go.
#[derive(Debug, Clone, Copy, PartialEq, Eq, Structural)]
pub enum Prediction {
    /// The price goes up / the event happens.
    Up,
    /// The price goes down / the event does not happen.
    Down,
}

/// Where a market stands in its lifecycle.
#[derive(Debug, Clone, Copy, PartialEq, Eq, Structural)]
pub enum MarketStatus {
    /// Accepting bets.
    Open,
    /// No more bets, waiting for resolution.
    Locked,
    /// Resolved with an outcome.
    Resolved,
    /// Cancelled; every bet was refunded.
    Cancelled,
}

/// What actually happened.
#[derive(Debug, Clone, Copy, PartialEq, Eq, Structural)]
pub enum Outcome {
    /// The price went up / the event happened.
    Up,
    /// The price went down / the event did not happen.
    Down,
}

/// What a market is about.
#[derive(Debug, Clone, PartialEq, Eq)]
pub enum MarketType {
    /// Will the price of `symbol` reach `target_price`?
    PricePrediction { symbol: String, target_price: u64 },
    /// Will something happen?
    BinaryEvent { question: String },
    /// Anything else, resolved by hand.
    Custom { description: String },
}

/// One recorded wager. Immutable once recorded.
#[derive(Debug, Clone, Copy, PartialEq, Eq, Structural)]
pub struct Bet {
    pub bettor: AccountOwner,
    pub amount: Amount,
    pub prediction: Prediction,
    pub timestamp: Timestamp,
}

/// A market and its pools.
#[derive(Debug, Clone, PartialEq, Eq)]
pub struct Market {
    pub id: u64,
    pub creator: AccountOwner,
    pub market_type: MarketType,
    pub duration_micros: u64,
    pub created_at: Timestamp,
    pub closes_at: Timestamp,
    pub status: MarketStatus,
    pub total_pool: Amount,
    pub up_pool: Amount,
    pub down_pool: Amount,
    pub outcome: Option<Outcome>,
    pub resolved_at: Option<Timestamp>,
}

/// The record of one successful claim.
#[derive(Debug, Clone, Copy, PartialEq, Eq, Structural)]
pub struct Payout {
    pub market_id: u64,
    pub winner: AccountOwner,
    pub amount: Amount,
    pub paid_at: Timestamp,
}

/// The prediction that wins under `o`.
pub open spec fn winning_prediction(o: Outcome) -> Prediction {
    match o {
        Outcome::Up => Prediction::Up,
        Outcome::Down => Prediction::Down,
    }
}

/// The outcome that makes `p` win.
pub open spec fn outcome_of(p: Prediction) -> Outcome {
    match p {
        Prediction::Up => Outcome::Up,
        Prediction::Down => Outcome::Down,
    }
}

/// The pool left for winners once the platform fee is taken:
/// `floor(total * 95 / 100)`.
pub open spec fn pool_after_fee(total: int) -> int {
    total * (100 - PLATFORM_FEE_PERCENT) / 100
}

/// The payout owed for a winning stake of `amount`, given the market's total
/// pool and its winning pool: `floor(amount * floor(total * 95 / 100) / winning)`,
/// and nothing when either pool is empty.
pub open spec fn payout_spec(total: int, winning: int, amount: int) -> int {
    if total == 0 || winning == 0 {
        0
    } else {
        amount * pool_after_fee(total) / winning
    }
}

/// The largest `Amount`.
pub open spec fn amount_cap(v: int) -> int {
    if v > u128::MAX {
        u128::MAX as int
    } else {
        v
    }
}

impl Market {
    /// The pool that wins under `o`.
    pub open spec fn pool_for(&self, o: Outcome) -> Amount {
        match o {
            Outcome::Up => self.up_pool,
            Outcome::Down => self.down_pool,
        }
    }

    /// The exact payout this market owes for a winning stake of `amount`:
    /// nothing until it has an outcome.
    pub open spec fn payout_of(&self, amount: int) -> int {
        match self.outcome {
            None => 0,
            Some(o) => payout_spec(self.total_pool as int, self.pool_for(o) as int, amount),
        }
    }

    /// The market still accepts bets at `current_time`.
    pub open spec fn spec_is_open(&self, current_time: Timestamp) -> bool {
        self.status == MarketStatus::Open && current_time < self.closes_at
    }

    /// The market may be resolved at `current_time`.
    pub open spec fn spec_can_resolve(&self, current_time: Timestamp) -> bool {
        self.status == MarketStatus::Open && current_time >= self.closes_at
    }

    /// Checks whether the market is still accepting bets.
    pub fn is_open(&self, current_time: Timestamp) -> (r: bool)
        ensures
            r == self.spec_is_open(current_time),
    {
        self.status == MarketStatus::Open && current_time < self.closes_at
    }

    /// Checks whether the market is ready for resolution.
    pub fn can_resolve(&self, current_time: Timestamp) -> (r: bool)
        ensures
            r == self.spec_can_resolve(current_time),
    {
        self.status == MarketStatus::Open && current_time >= self.closes_at
    }

    /// The payout for a winning stake of `bet_amount`: a 5% fee comes off the
    /// total pool, the rest is shared pro rata over the winning pool, each
    /// division truncating. Where the exact value exceeds the largest
    /// `Amount` (a stake above the winning pool) the result is that largest
    /// `Amount`.
    pub fn calculate_payout(&self, bet_amount: Amount) -> (r: Amount)
        ensures
            r as int == amount_cap(self.payout_of(bet_amount as int)),
    {
        if self.total_pool == 0 {
            return 0;
        }
        let winning_pool = match self.outcome {
            Some(Outcome::Up) => self.up_pool,
            Some(Outcome::Down) => self.down_pool,
            None => {
                return 0;
            },
        };
        if winning_pool == 0 {
            return 0;
        }
        let after_fee = mul_div_floor((100 - PLATFORM_FEE_PERCENT) as u128, self.total_pool, 100);
        proof {
            assert(after_fee as int == pool_after_fee(self.total_pool as int));
        }
        let whole = bet_amount / winning_pool;
        let rest = bet_amount % winning_pool;
        let part = mul_div_floor(rest, after_fee, winning_pool);
        proof {
            vstd::arithmetic::div_mod::lemma_fundamental_div_mod(
                bet_amount as int,
                winning_pool as int,
            );
            assert(bet_amount as int == whole as int * winning_pool as int + rest as int) by (
            nonlinear_arith)
                requires
                    bet_amount as int == winning_pool as int * (bet_amount as int
                        / winning_pool as int) + bet_amount as int % winning_pool as int,
                    whole as int == bet_amount as int / winning_pool as int,
                    rest as int == bet_amount as int % winning_pool as int,
            ;
            lemma_split_share(
                bet_amount as int,
                after_fee as int,
                winning_pool as int,
                whole as int,
                rest as int,
            );
        }
        match whole.checked_mul(after_fee) {
            Some(head) => match head.checked_add(part) {
                Some(v) => v,
                None => u128::MAX,
            },
            None => {
                proof {
                    assert(whole as int * after_fee as int <= whole as int * after_fee as int
                        + part as int);
                }
                u128::MAX
            },
        }
    }
}

/// Splitting a stake into whole multiples of the divisor and a remainder
/// splits its share the same way.
proof fn lemma_split_share(a: int, f: int, w: int, q: int, r: int)
    requires
        w > 0,
        f >= 0,
        a == q * w + r,
        0 <= r < w,
    ensures
        a * f / w == q * f + mul_div_spec(r, f, w),
{
    assert(a * f == (q * f) * w + r * f) by (nonlinear_arith)
        requires
            a == q * w + r,
    ;
    assert(((q * f) * w + r * f) / w == q * f + (r * f) / w) by (nonlinear_arith)
        requires
            w > 0,
    ;
}

impl Prediction {
    /// The other side.
    pub open spec fn spec_opposite(&self) -> Prediction {
        match self {
            Prediction::Up => Prediction::Down,
            Prediction::Down => Prediction::Up,
        }
    }

    /// The other side of the wager.
    pub fn opposite(&self) -> (r: Self)
        ensures
            r == self.spec_opposite(),
            r != *self,
    {
        match self {
            Prediction::Up => Prediction::Down,
            Prediction::Down => Prediction::Up,
        }
    }
}

impl From<Outcome> for Prediction {
    fn from(outcome: Outcome) -> (r: Self) {
        match outcome {
            Outcome::Up => Prediction::Up,
            Outcome::Down => Prediction::Down,
        }
    }
}

impl vstd::std_specs::convert::FromSpecImpl<Outcome> for Prediction {
    open spec fn obeys_from_spec() -> bool {
        true
    }

    open spec fn from_spec(v: Outcome) -> Prediction {
        winning_prediction(v)
    }
}

impl From<Prediction> for Outcome {
    fn from(prediction: Prediction) -> (r: Self) {
        match prediction {
            Prediction::Up => Outcome::Up,
            Prediction::Down => Outcome::Down,
        }
    }
}

impl vstd::std_specs::convert::FromSpecImpl<Prediction> for Outcome {
    open spec fn obeys_from_spec() -> bool {
        true
    }

    open spec fn from_spec(v: Prediction) -> Outcome {
        outcome_of(v)
    }
}

} // verus!
