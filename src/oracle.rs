//! The price oracle: latest price per symbol, and resolution of markets by
//! price or by its owner's decision.
use vstd::prelude::*;

use crate::abi::{AccountOwner, ContractAbi, Outcome, Timestamp};
use crate::market::{MarketError, MarketState};

verus! {

/// The latest price reported for a symbol.
#[derive(Debug, Clone, PartialEq, Eq)]
pub struct PriceFeed {
    pub symbol: String,
    pub price: u64,
    pub timestamp: Timestamp,
}

/// A command to the oracle.
#[derive(Debug, Clone, PartialEq, Eq)]
pub enum OracleOperation {
    /// Record the latest price of a symbol.
    SubmitPrice { symbol: String, price: u64 },
    /// Resolve a market by comparing the symbol's latest price with a target.
    ResolveMarketByPrice { market_id: u64, symbol: String, target_price: u64 },
    /// Resolve a market by the owner's decision.
    ManualResolve { market_id: u64, outcome: Outcome },
}

/// What a successful oracle command returns.
#[derive(Debug, Clone, Copy, PartialEq, Eq, Structural)]
pub enum OracleResponse {
    /// The command was carried out.
    Done,
    /// A price.
    Price(u64),
}

/// The command interface of the oracle.
pub struct OracleAbi;

impl ContractAbi for OracleAbi {
    type Operation = OracleOperation;
    type Response = OracleResponse;
}

/// Why an oracle command was refused. A refused command changes nothing.
#[derive(Debug, Clone, Copy, PartialEq, Eq, Structural)]
pub enum OracleError {
    /// Only the oracle's owner may resolve by hand.
    Unauthorized,
    /// No price was ever reported for the symbol.
    NoPriceFeed,
    /// The market refused the resolution.
    Market(MarketError),
}

/// The outcome a price gives against a target: up when the price reached it.
pub open spec fn spec_outcome_for_price(price: u64, target_price: u64) -> Outcome {
    if price >= target_price {
        Outcome::Up
    } else {
        Outcome::Down
    }
}

/// The outcome of a price-prediction market: `Up` when `price` is at or
/// above `target_price`, else `Down`.
pub fn outcome_for_price(price: u64, target_price: u64) -> (r: Outcome)
    ensures
        r == spec_outcome_for_price(price, target_price),
{
    if price >= target_price {
        Outcome::Up
    } else {
        Outcome::Down
    }
}

/// `after` and `r` are what resolving market `market_id` of `before` with
/// `outcome`, as `caller`, gives.
pub open spec fn resolution_result(
    before: MarketState,
    after: MarketState,
    caller: AccountOwner,
    market_id: u64,
    outcome: Outcome,
    now: Timestamp,
    r: Result<(), OracleError>,
) -> bool {
    match before.resolve_error(caller, market_id, now) {
        Some(e) => {
            &&& r == Err::<(), OracleError>(OracleError::Market(e))
            &&& after == before
        },
        None => {
            &&& r == Ok::<(), OracleError>(())
            &&& after.resolved_from(before, market_id, outcome, now)
        },
    }
}

/// [`resolution_result`] for a command that answers `Done` on success.
pub open spec fn response_of(
    before: MarketState,
    after: MarketState,
    caller: AccountOwner,
    market_id: u64,
    outcome: Outcome,
    now: Timestamp,
    r: Result<OracleResponse, OracleError>,
) -> bool {
    resolution_result(
        before,
        after,
        caller,
        market_id,
        outcome,
        now,
        match r {
            Ok(_) => Ok(()),
            Err(e) => Err(e),
        },
    ) && (r is Ok ==> r == Ok::<OracleResponse, OracleError>(OracleResponse::Done))
}

/// Entry `j` of `prices` is the feed of `symbol`.
pub open spec fn feed_at(prices: Seq<PriceFeed>, j: int, symbol: Seq<char>) -> bool {
    0 <= j < prices.len() && prices[j].symbol@ == symbol
}

/// The oracle's state.
pub struct OracleState {
    /// The account allowed to resolve markets by hand.
    pub owner: AccountOwner,
    /// The identity the oracle presents to the market engine.
    pub identity: AccountOwner,
    /// The latest feed of each symbol, one per symbol.
    pub prices: Vec<PriceFeed>,
}

impl OracleState {
    /// Each symbol has at most one feed.
    pub open spec fn wf(&self) -> bool {
        forall|i: int, j: int|
            0 <= i < j < self.prices@.len() ==> #[trigger] self.prices@[i].symbol@
                != #[trigger] self.prices@[j].symbol@
    }

    /// The latest price reported for `symbol`, if any.
    pub open spec fn price_of(&self, symbol: Seq<char>) -> Option<u64> {
        if exists|i: int| #[trigger] feed_at(self.prices@, i, symbol) {
            let i = choose|i: int| #[trigger] feed_at(self.prices@, i, symbol);
            Some(self.prices@[i].price)
        } else {
            None
        }
    }

    /// When the latest price for `symbol` was reported, if ever.
    pub open spec fn timestamp_of(&self, symbol: Seq<char>) -> Option<Timestamp> {
        if exists|i: int| #[trigger] feed_at(self.prices@, i, symbol) {
            let i = choose|i: int| #[trigger] feed_at(self.prices@, i, symbol);
            Some(self.prices@[i].timestamp)
        } else {
            None
        }
    }

    /// An oracle with no prices.
    pub fn new(owner: AccountOwner, identity: AccountOwner) -> (r: Self)
        ensures
            r.wf(),
            r.owner == owner,
            r.identity == identity,
            forall|s: Seq<char>| #[trigger] r.price_of(s) is None,
    {
        OracleState { owner, identity, prices: Vec::new() }
    }

    /// Where the feed of `symbol` stands, if there is one.
    fn find(&self, symbol: &String) -> (r: Option<usize>)
        requires
            self.wf(),
        ensures
            match r {
                Some(i) => i < self.prices@.len() && self.prices@[i as int].symbol@ == symbol@,
                None => forall|i: int|
                    0 <= i < self.prices@.len() ==> #[trigger] self.prices@[i].symbol@ != symbol@,
            },
    {
        let n = self.prices.len();
        let mut i: usize = 0;
        while i < n
            invariant
                0 <= i <= n,
                n == self.prices@.len(),
                forall|j: int| 0 <= j < i ==> #[trigger] self.prices@[j].symbol@ != symbol@,
            decreases n - i,
        {
            if self.prices[i].symbol == *symbol {
                return Some(i);
            }
            i = i + 1;
        }
        None
    }

    /// The latest price reported for `symbol`, if any.
    pub fn latest_price(&self, symbol: &String) -> (r: Option<u64>)
        requires
            self.wf(),
        ensures
            r == self.price_of(symbol@),
    {
        match self.find(symbol) {
            Some(i) => {
                proof {
                    assert(feed_at(self.prices@, i as int, symbol@));
                    let c = choose|j: int| #[trigger] feed_at(self.prices@, j, symbol@);
                    assert(c == i as int);
                }
                Some(self.prices[i].price)
            },
            None => None,
        }
    }

    /// Records `price` as the latest price of `symbol`, at `now`.
    pub fn submit_price(&mut self, symbol: String, price: u64, now: Timestamp)
        requires
            old(self).wf(),
        ensures
            final(self).wf(),
            final(self).owner == old(self).owner,
            final(self).identity == old(self).identity,
            final(self).price_of(symbol@) == Some(price),
            final(self).timestamp_of(symbol@) == Some(now),
            forall|s: Seq<char>|
                s != symbol@ ==> #[trigger] final(self).price_of(s) == old(self).price_of(s)
                    && final(self).timestamp_of(s) == old(self).timestamp_of(s),
    {
        let ghost sym = symbol@;
        let ghost before = self.prices@;
        match self.find(&symbol) {
            Some(i) => {
                self.prices.set(i, PriceFeed { symbol, price, timestamp: now });
                proof {
                    assert forall|s: Seq<char>| s != sym implies #[trigger] self.price_of(s)
                        == old(self).price_of(s) && self.timestamp_of(s) == old(
                        self,
                    ).timestamp_of(s) by {
                        if exists|j: int| #[trigger] feed_at(before, j, s) {
                            let j = choose|j: int| #[trigger] feed_at(before, j, s);
                            assert(feed_at(self.prices@, j, s));
                        }
                        if exists|j: int| #[trigger] feed_at(self.prices@, j, s) {
                            let j = choose|j: int| #[trigger] feed_at(self.prices@, j, s);
                            assert(feed_at(before, j, s));
                        }
                    }
                    assert(feed_at(self.prices@, i as int, sym));
                }
            },
            None => {
                self.prices.push(PriceFeed { symbol, price, timestamp: now });
                proof {
                    let last = before.len() as int;
                    assert(feed_at(self.prices@, last, sym));
                    assert forall|s: Seq<char>| s != sym implies #[trigger] self.price_of(s)
                        == old(self).price_of(s) && self.timestamp_of(s) == old(
                        self,
                    ).timestamp_of(s) by {
                        if exists|j: int| #[trigger] feed_at(before, j, s) {
                            let j = choose|j: int| #[trigger] feed_at(before, j, s);
                            assert(feed_at(self.prices@, j, s));
                        }
                        if exists|j: int| #[trigger] feed_at(self.prices@, j, s) {
                            let j = choose|j: int| #[trigger] feed_at(self.prices@, j, s);
                            assert(j != last);
                            assert(feed_at(before, j, s));
                        }
                    }
                }
            },
        }
    }

    /// Resolves market `market_id` by the latest price of `symbol`: `Up` when
    /// it reached `target_price`, else `Down`. The market engine then applies
    /// its own authorization and timing checks to the oracle's identity.
    pub fn resolve_market_by_price(
        &self,
        market: &mut MarketState,
        market_id: u64,
        symbol: &String,
        target_price: u64,
        now: Timestamp,
    ) -> (r: Result<(), OracleError>)
        requires
            self.wf(),
            old(market).wf(),
        ensures
            final(market).wf(),
            match self.price_of(symbol@) {
                None => {
                    &&& r == Err::<(), OracleError>(OracleError::NoPriceFeed)
                    &&& *final(market) == *old(market)
                },
                Some(price) => resolution_result(
                    *old(market),
                    *final(market),
                    self.identity,
                    market_id,
                    spec_outcome_for_price(price, target_price),
                    now,
                    r,
                ),
            },
    {
        let price = match self.latest_price(symbol) {
            Some(p) => p,
            None => {
                return Err(OracleError::NoPriceFeed);
            },
        };
        let outcome = outcome_for_price(price, target_price);
        match market.resolve_market(self.identity, market_id, outcome, now) {
            Ok(()) => Ok(()),
            Err(e) => Err(OracleError::Market(e)),
        }
    }

    /// Resolves market `market_id` with `outcome` on the owner's word.
    pub fn manual_resolve(
        &self,
        market: &mut MarketState,
        signer: AccountOwner,
        market_id: u64,
        outcome: Outcome,
        now: Timestamp,
    ) -> (r: Result<(), OracleError>)
        requires
            old(market).wf(),
        ensures
            final(market).wf(),
            signer != self.owner ==> {
                &&& r == Err::<(), OracleError>(OracleError::Unauthorized)
                &&& *final(market) == *old(market)
            },
            signer == self.owner ==> resolution_result(
                *old(market),
                *final(market),
                self.identity,
                market_id,
                outcome,
                now,
                r,
            ),
    {
        if signer != self.owner {
            return Err(OracleError::Unauthorized);
        }
        match market.resolve_market(self.identity, market_id, outcome, now) {
            Ok(()) => Ok(()),
            Err(e) => Err(OracleError::Market(e)),
        }
    }

    /// Carries out one oracle command on behalf of `signer`.
    pub fn execute_operation(
        &mut self,
        market: &mut MarketState,
        signer: AccountOwner,
        operation: OracleOperation,
        now: Timestamp,
    ) -> (r: Result<OracleResponse, OracleError>)
        requires
            old(self).wf(),
            old(market).wf(),
        ensures
            final(self).wf(),
            final(market).wf(),
            final(self).owner == old(self).owner,
            final(self).identity == old(self).identity,
            match operation {
                OracleOperation::SubmitPrice { symbol, price } => {
                    &&& r == Ok::<OracleResponse, OracleError>(OracleResponse::Done)
                    &&& *final(market) == *old(market)
                    &&& final(self).price_of(symbol@) == Some(price)
                    &&& final(self).timestamp_of(symbol@) == Some(now)
                    &&& forall|s: Seq<char>|
                        s != symbol@ ==> #[trigger] final(self).price_of(s) == old(
                            self,
                        ).price_of(s) && final(self).timestamp_of(s) == old(self).timestamp_of(s)
                },
                OracleOperation::ResolveMarketByPrice { market_id, symbol, target_price } => {
                    &&& *final(self) == *old(self)
                    &&& match old(self).price_of(symbol@) {
                        None => {
                            &&& r == Err::<OracleResponse, OracleError>(OracleError::NoPriceFeed)
                            &&& *final(market) == *old(market)
                        },
                        Some(price) => response_of(
                            *old(market),
                            *final(market),
                            old(self).identity,
                            market_id,
                            spec_outcome_for_price(price, target_price),
                            now,
                            r,
                        ),
                    }
                },
                OracleOperation::ManualResolve { market_id, outcome } => {
                    &&& *final(self) == *old(self)
                    &&& signer != old(self).owner ==> {
                        &&& r == Err::<OracleResponse, OracleError>(OracleError::Unauthorized)
                        &&& *final(market) == *old(market)
                    }
                    &&& signer == old(self).owner ==> response_of(
                        *old(market),
                        *final(market),
                        old(self).identity,
                        market_id,
                        outcome,
                        now,
                        r,
                    )
                },
            },
    {
        match operation {
            OracleOperation::SubmitPrice { symbol, price } => {
                self.submit_price(symbol, price, now);
                Ok(OracleResponse::Done)
            },
            OracleOperation::ResolveMarketByPrice { market_id, symbol, target_price } => {
                match self.resolve_market_by_price(market, market_id, &symbol, target_price, now) {
                    Ok(()) => Ok(OracleResponse::Done),
                    Err(e) => Err(e),
                }
            },
            OracleOperation::ManualResolve { market_id, outcome } => {
                match self.manual_resolve(market, signer, market_id, outcome, now) {
                    Ok(()) => Ok(OracleResponse::Done),
                    Err(e) => Err(e),
                }
            },
        }
    }
}

} // verus!
