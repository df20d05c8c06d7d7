//! The settlement engine: market registry, wager pools, resolution and payouts.
use vstd::prelude::*;

use crate::abi::{
    pool_after_fee, winning_prediction, AccountOwner, Amount, Bet, ContractAbi, Market,
    MarketStatus, MarketType, Outcome, Payout, Prediction, Timestamp, MARKET_CREATION_FEE,
    MAX_MARKET_DURATION_MICROS, MICROS_PER_MINUTE, MIN_BET_AMOUNT, MIN_MARKET_DURATION_MICROS,
    PLATFORM_FEE_PERCENT,
};
use crate::laws::{lemma_bets_sum_to_pool, lemma_claim_is_permanent, lemma_pools_balanced};
use crate::token::{balance_in, TokenState};

verus! {

/// Why a command was refused. A refused command changes nothing.
#[derive(Debug, Clone, Copy, PartialEq, Eq, Structural)]
pub enum MarketError {
    /// The duration lies outside the allowed range.
    InvalidDuration,
    /// The account cannot pay the fee or the stake.
    InsufficientFunds,
    /// No market has this id.
    MarketNotFound,
    /// The market does not accept bets now.
    MarketNotOpen,
    /// The stake is below the minimum bet.
    BetTooSmall,
    /// The caller may not do this.
    Unauthorized,
    /// The market cannot be resolved now: it is not open, or its betting
    /// period has not ended.
    NotReadyToResolve,
    /// The market is not open, so it cannot be cancelled.
    InvalidTransition,
    /// The account has already been paid for this market.
    AlreadyClaimed,
    /// The market has no outcome yet.
    MarketNotResolved,
    /// The account placed no bet on this market.
    NoBets,
    /// The account's bets won nothing.
    NoWinnings,
    /// A pool or a balance would exceed the largest amount.
    Overflow,
}

/// A command to the market engine.
#[derive(Debug, Clone, PartialEq, Eq)]
pub enum MarketOperation {
    /// Open a new market.
    CreateMarket { market_type: MarketType, duration_minutes: u64 },
    /// Bet on a market.
    PlaceBet { market_id: u64, prediction: Prediction, amount: Amount },
    /// Resolve a market (resolver only).
    ResolveMarket { market_id: u64, outcome: Outcome },
    /// Cancel a market and refund its bets (creator only).
    CancelMarket { market_id: u64 },
    /// Collect the winnings of a resolved market.
    ClaimWinnings { market_id: u64 },
}

/// What a successful market command returns.
#[derive(Debug, Clone, PartialEq, Eq)]
pub enum MarketResponse {
    /// The command was carried out.
    Done,
    /// The id of a new market.
    MarketId(u64),
    /// A market.
    Market(Market),
    /// The amount paid out.
    Payout(Amount),
}

/// The command interface of the market engine.
pub struct MarketAbi;

impl ContractAbi for MarketAbi {
    type Operation = MarketOperation;
    type Response = MarketResponse;
}

/// `Done` for a unit success, the error otherwise.
pub open spec fn done_or(v: Result<(), MarketError>) -> Result<MarketResponse, MarketError> {
    match v {
        Ok(_) => Ok(MarketResponse::Done),
        Err(e) => Err(e),
    }
}

/// Sum of the stakes in `bets`.
pub open spec fn bets_sum(bets: Seq<Bet>) -> int
    decreases bets.len(),
{
    if bets.len() == 0 {
        0
    } else {
        bets_sum(bets.drop_last()) + bets.last().amount
    }
}

/// Sum of the stakes in `bets` on side `p`.
pub open spec fn side_sum(bets: Seq<Bet>, p: Prediction) -> int
    decreases bets.len(),
{
    if bets.len() == 0 {
        0
    } else {
        side_sum(bets.drop_last(), p) + if bets.last().prediction == p {
            bets.last().amount as int
        } else {
            0
        }
    }
}

/// Sum of the stakes that `a` placed in `bets`.
pub open spec fn account_sum(bets: Seq<Bet>, a: AccountOwner) -> int
    decreases bets.len(),
{
    if bets.len() == 0 {
        0
    } else {
        account_sum(bets.drop_last(), a) + if bets.last().bettor == a {
            bets.last().amount as int
        } else {
            0
        }
    }
}

/// Sum of the stakes that `a` placed in `bets` on side `p`.
pub open spec fn account_side_sum(bets: Seq<Bet>, a: AccountOwner, p: Prediction) -> int
    decreases bets.len(),
{
    if bets.len() == 0 {
        0
    } else {
        account_side_sum(bets.drop_last(), a, p) + if bets.last().bettor == a
            && bets.last().prediction == p {
            bets.last().amount as int
        } else {
            0
        }
    }
}

/// The bet was placed by `a`.
pub open spec fn placed_by(a: AccountOwner) -> spec_fn(Bet) -> bool {
    |b: Bet| b.bettor == a
}

/// `a` placed at least one bet in `bets`.
pub open spec fn has_bet(bets: Seq<Bet>, a: AccountOwner) -> bool {
    exists|i: int| 0 <= i < bets.len() && #[trigger] bets[i].bettor == a
}

/// The bet wins under the market's outcome.
pub open spec fn bet_wins(m: Market, b: Bet) -> bool {
    match m.outcome {
        Some(o) => b.prediction == winning_prediction(o),
        None => false,
    }
}

/// What `a` is owed from market `m` for its bets in `bets`: the sum over its
/// winning bets of the payout for each stake.
pub open spec fn winnings(bets: Seq<Bet>, a: AccountOwner, m: Market) -> int
    decreases bets.len(),
{
    if bets.len() == 0 {
        0
    } else {
        winnings(bets.drop_last(), a, m) + if bets.last().bettor == a && bet_wins(
            m,
            bets.last(),
        ) {
            m.payout_of(bets.last().amount as int)
        } else {
            0
        }
    }
}

/// The balances after crediting each bet's stake back to its bettor, in order.
pub open spec fn apply_refunds(accounts: Map<AccountOwner, Amount>, bets: Seq<Bet>) -> Map<
    AccountOwner,
    Amount,
>
    decreases bets.len(),
{
    if bets.len() == 0 {
        accounts
    } else {
        let before = apply_refunds(accounts, bets.drop_last());
        let b = bets.last();
        before.insert(b.bettor, (balance_in(before, b.bettor) + b.amount) as Amount)
    }
}

/// Every credit of the refund pass fits in an `Amount`.
pub open spec fn refunds_fit(accounts: Map<AccountOwner, Amount>, bets: Seq<Bet>) -> bool
    decreases bets.len(),
{
    if bets.len() == 0 {
        true
    } else {
        let before = apply_refunds(accounts, bets.drop_last());
        let b = bets.last();
        refunds_fit(accounts, bets.drop_last()) && balance_in(before, b.bettor) + b.amount
            <= u128::MAX
    }
}

/// The duration in minutes, converted to microseconds, lies in the allowed range.
pub open spec fn duration_ok(duration_minutes: u64) -> bool {
    MIN_MARKET_DURATION_MICROS <= duration_minutes * MICROS_PER_MINUTE
        <= MAX_MARKET_DURATION_MICROS
}

/// The market's close time: `now + duration`, capped at the largest timestamp.
pub open spec fn close_time(now: Timestamp, duration_micros: int) -> Timestamp {
    if now + duration_micros > u64::MAX {
        u64::MAX
    } else {
        (now + duration_micros) as Timestamp
    }
}

/// A refund pass that fits keeps fitting on every prefix of the bets.
proof fn lemma_refunds_fit_prefix(accounts: Map<AccountOwner, Amount>, bets: Seq<Bet>, k: int)
    requires
        0 <= k <= bets.len(),
        refunds_fit(accounts, bets),
    ensures
        refunds_fit(accounts, bets.take(k)),
    decreases bets.len(),
{
    if k == bets.len() {
        assert(bets.take(k) == bets);
    } else {
        assert(bets.drop_last().take(k) == bets.take(k));
        lemma_refunds_fit_prefix(accounts, bets.drop_last(), k);
    }
}

/// One account's stake on a side never exceeds the whole side.
proof fn lemma_account_side_le_side(bets: Seq<Bet>, a: AccountOwner, p: Prediction)
    ensures
        0 <= account_side_sum(bets, a, p) <= side_sum(bets, p),
    decreases bets.len(),
{
    if bets.len() > 0 {
        lemma_account_side_le_side(bets.drop_last(), a, p);
    }
}

/// An account's stake on a side only grows as bets are added.
proof fn lemma_account_side_prefix(bets: Seq<Bet>, a: AccountOwner, p: Prediction, k: int)
    requires
        0 <= k <= bets.len(),
    ensures
        account_side_sum(bets.take(k), a, p) <= account_side_sum(bets, a, p),
    decreases bets.len(),
{
    if k == bets.len() {
        assert(bets.take(k) == bets);
    } else {
        assert(bets.drop_last().take(k) == bets.take(k));
        lemma_account_side_prefix(bets.drop_last(), a, p, k);
        lemma_account_side_le_side(bets.drop_last(), a, p);
        lemma_account_side_le_side(bets, a, p);
    }
}

/// The last bet's stake is part of its bettor's stake on its side.
proof fn lemma_stake_within_pool(bets: Seq<Bet>, a: AccountOwner, p: Prediction)
    requires
        bets.len() > 0,
        bets.last().bettor == a,
        bets.last().prediction == p,
    ensures
        bets.last().amount <= account_side_sum(bets, a, p),
{
    lemma_account_side_le_side(bets.drop_last(), a, p);
}

/// A stake no larger than the winning pool earns at most the pool left
/// after the fee.
proof fn lemma_share_within_pool(m: Market, o: Outcome, amount: int)
    requires
        m.outcome == Some(o),
        0 <= amount <= m.pool_for(o),
    ensures
        0 <= m.payout_of(amount) <= pool_after_fee(m.total_pool as int),
{
    let w = m.pool_for(o) as int;
    let f = pool_after_fee(m.total_pool as int);
    assert(f >= 0) by (nonlinear_arith)
        requires
            f == m.total_pool as int * (100 - PLATFORM_FEE_PERCENT) / 100,
            m.total_pool >= 0,
    ;
    if m.total_pool != 0 && w != 0 {
        assert(0 <= amount * f / w <= f) by (nonlinear_arith)
            requires
                0 <= amount <= w,
                w > 0,
                f >= 0,
        ;
    }
}

/// What an account wins, summed over bets whose stakes on the winning side
/// stay within the winning pool, never exceeds the pool left after the fee.
proof fn lemma_winnings_within_pool(bets: Seq<Bet>, a: AccountOwner, m: Market, o: Outcome)
    requires
        m.outcome == Some(o),
        account_side_sum(bets, a, winning_prediction(o)) <= m.pool_for(o),
    ensures
        0 <= winnings(bets, a, m) <= pool_after_fee(m.total_pool as int),
{
    let w = m.pool_for(o) as int;
    let f = pool_after_fee(m.total_pool as int);
    assert(f >= 0) by (nonlinear_arith)
        requires
            f == m.total_pool as int * (100 - PLATFORM_FEE_PERCENT) / 100,
            m.total_pool >= 0,
    ;
    if m.total_pool == 0 || w == 0 {
        lemma_winnings_nothing(bets, a, m, o);
    } else {
        lemma_winnings_scaled(bets, a, m, o);
        let s = account_side_sum(bets, a, winning_prediction(o));
        let v = winnings(bets, a, m);
        assert(v <= f) by (nonlinear_arith)
            requires
                v * w <= s * f,
                s <= w,
                w > 0,
                f >= 0,
        ;
    }
}

/// With an empty total or winning pool, nobody wins anything.
proof fn lemma_winnings_nothing(bets: Seq<Bet>, a: AccountOwner, m: Market, o: Outcome)
    requires
        m.outcome == Some(o),
        m.total_pool == 0 || m.pool_for(o) == 0,
    ensures
        winnings(bets, a, m) == 0,
    decreases bets.len(),
{
    if bets.len() > 0 {
        lemma_winnings_nothing(bets.drop_last(), a, m, o);
    }
}

/// Each truncated share is at most its exact fraction of the fee-reduced
/// pool, so the sum is too.
proof fn lemma_winnings_scaled(bets: Seq<Bet>, a: AccountOwner, m: Market, o: Outcome)
    requires
        m.outcome == Some(o),
        m.total_pool != 0,
        m.pool_for(o) != 0,
    ensures
        0 <= winnings(bets, a, m),
        winnings(bets, a, m) * (m.pool_for(o) as int) <= account_side_sum(
            bets,
            a,
            winning_prediction(o),
        ) * pool_after_fee(m.total_pool as int),
    decreases bets.len(),
{
    let w = m.pool_for(o) as int;
    let f = pool_after_fee(m.total_pool as int);
    assert(f >= 0) by (nonlinear_arith)
        requires
            f == m.total_pool as int * (100 - PLATFORM_FEE_PERCENT) / 100,
            m.total_pool >= 0,
    ;
    if bets.len() > 0 {
        let rest = bets.drop_last();
        let b = bets.last();
        lemma_winnings_scaled(rest, a, m, o);
        let v0 = winnings(rest, a, m);
        let s0 = account_side_sum(rest, a, winning_prediction(o));
        if b.bettor == a && bet_wins(m, b) {
            let amt = b.amount as int;
            assert(amt * f / w * w <= amt * f) by (nonlinear_arith)
                requires
                    w > 0,
                    amt >= 0,
                    f >= 0,
            ;
            assert(amt * f / w >= 0) by (nonlinear_arith)
                requires
                    w > 0,
                    amt >= 0,
                    f >= 0,
            ;
            assert((v0 + amt * f / w) * w <= (s0 + amt) * f) by (nonlinear_arith)
                requires
                    v0 * w <= s0 * f,
                    amt * f / w * w <= amt * f,
            ;
        }
    }
}

/// The settlement engine's state.
pub struct MarketState {
    /// The identity allowed to resolve markets.
    pub resolver: AccountOwner,
    /// Every market ever created; a market's id is its index.
    pub markets: Vec<Market>,
    /// The bets of each market, in recording order; indexed like `markets`.
    pub bets: Vec<Vec<Bet>>,
    /// One record per successful claim, in order.
    pub payouts: Vec<Payout>,
}

impl MarketState {
    /// The bets recorded on market `id`.
    pub open spec fn bets_of(&self, id: int) -> Seq<Bet> {
        self.bets@[id]@
    }

    /// `a` has been paid for market `id`.
    pub open spec fn spec_has_claimed(&self, id: u64, a: AccountOwner) -> bool {
        exists|j: int|
            0 <= j < self.payouts@.len() && #[trigger] self.payouts@[j].market_id == id
                && self.payouts@[j].winner == a
    }

    /// Well-formedness of market `i`.
    pub open spec fn market_wf(&self, i: int) -> bool {
        let m = self.markets@[i];
        &&& m.id == i
        &&& m.total_pool == m.up_pool + m.down_pool
        &&& m.up_pool == side_sum(self.bets_of(i), Prediction::Up)
        &&& m.down_pool == side_sum(self.bets_of(i), Prediction::Down)
        &&& (m.outcome is Some) == (m.status == MarketStatus::Resolved)
        &&& (m.resolved_at is Some) == (m.status == MarketStatus::Resolved)
    }

    /// The engine's invariant: markets are numbered by position, pools match
    /// the recorded bets, payouts go to resolved markets and at most one per
    /// market and account.
    pub open spec fn wf(&self) -> bool {
        &&& self.markets@.len() == self.bets@.len()
        &&& forall|i: int| 0 <= i < self.markets@.len() ==> #[trigger] self.market_wf(i)
        &&& forall|j: int|
            0 <= j < self.payouts@.len() ==> {
                let p = #[trigger] self.payouts@[j];
                &&& p.market_id < self.markets@.len()
                &&& self.markets@[p.market_id as int].status == MarketStatus::Resolved
            }
        &&& forall|j: int, k: int|
            0 <= j < k < self.payouts@.len() ==> !(#[trigger] self.payouts@[j].market_id
                == #[trigger] self.payouts@[k].market_id && self.payouts@[j].winner
                == self.payouts@[k].winner)
    }

    /// Which error `create_market` gives, if any.
    pub open spec fn create_error(
        &self,
        ledger: &TokenState,
        creator: AccountOwner,
        duration_minutes: u64,
    ) -> Option<MarketError> {
        if !duration_ok(duration_minutes) {
            Some(MarketError::InvalidDuration)
        } else if ledger.balance_of(creator) < MARKET_CREATION_FEE {
            Some(MarketError::InsufficientFunds)
        } else {
            None
        }
    }

    /// What `create_market` gives: `after`, `ledger_after` and `r` are its
    /// effect on `before` and `ledger_before`.
    pub open spec fn created(
        before: MarketState,
        after: MarketState,
        ledger_before: TokenState,
        ledger_after: TokenState,
        creator: AccountOwner,
        market_type: MarketType,
        duration_minutes: u64,
        now: Timestamp,
        r: Result<u64, MarketError>,
    ) -> bool {
        match before.create_error(&ledger_before, creator, duration_minutes) {
            Some(e) => {
                &&& r == Err::<u64, MarketError>(e)
                &&& after == before
                &&& ledger_after == ledger_before
            },
            None => {
                let duration = (duration_minutes * MICROS_PER_MINUTE) as u64;
                &&& r == Ok::<u64, MarketError>(before.markets@.len() as u64)
                &&& after.markets@ == before.markets@.push(
                    (Market {
                        id: before.markets@.len() as u64,
                        creator,
                        market_type,
                        duration_micros: duration,
                        created_at: now,
                        closes_at: close_time(now, duration as int),
                        status: MarketStatus::Open,
                        total_pool: 0,
                        up_pool: 0,
                        down_pool: 0,
                        outcome: None,
                        resolved_at: None,
                    }),
                )
                &&& after.bets@.len() == before.bets@.len() + 1
                &&& after.bets_of(before.markets@.len() as int) == Seq::<Bet>::empty()
                &&& forall|i: int|
                    0 <= i < before.bets@.len() ==> #[trigger] after.bets@[i]
                        == before.bets@[i]
                &&& after.payouts@ == before.payouts@
                &&& after.resolver == before.resolver
                &&& ledger_after.accounts@ == ledger_before.accounts@.insert(
                    creator,
                    (ledger_before.balance_of(creator) - MARKET_CREATION_FEE) as Amount,
                )
                &&& ledger_before.same_but_balances(&ledger_after)
            },
        }
    }

    /// What `place_bet` gives: `after`, `ledger_after` and `r` are its effect
    /// on `before` and `ledger_before`.
    pub open spec fn bet_placed(
        before: MarketState,
        after: MarketState,
        ledger_before: TokenState,
        ledger_after: TokenState,
        market_id: u64,
        bettor: AccountOwner,
        prediction: Prediction,
        amount: Amount,
        now: Timestamp,
        r: Result<(), MarketError>,
    ) -> bool {
        match before.bet_error(&ledger_before, market_id, bettor, amount, now) {
            Some(e) => {
                &&& r == Err::<(), MarketError>(e)
                &&& after == before
                &&& ledger_after == ledger_before
            },
            None => {
                let id = market_id as int;
                &&& r == Ok::<(), MarketError>(())
                &&& after.markets@ == before.markets@.update(
                    id,
                    Self::with_stake(before.markets@[id], prediction, amount),
                )
                &&& after.bets@.len() == before.bets@.len()
                &&& after.bets_of(id) == before.bets_of(id).push(
                    (Bet { bettor, amount, prediction, timestamp: now }),
                )
                &&& forall|i: int|
                    0 <= i < before.bets@.len() && i != id ==> #[trigger] after.bets@[i]
                        == before.bets@[i]
                &&& after.payouts@ == before.payouts@
                &&& after.resolver == before.resolver
                &&& ledger_after.accounts@ == ledger_before.accounts@.insert(
                    bettor,
                    (ledger_before.balance_of(bettor) - amount) as Amount,
                )
                &&& ledger_before.same_but_balances(&ledger_after)
            },
        }
    }

    /// What `cancel_market` gives: `after`, `ledger_after` and `r` are its
    /// effect on `before` and `ledger_before`.
    pub open spec fn cancelled(
        before: MarketState,
        after: MarketState,
        ledger_before: TokenState,
        ledger_after: TokenState,
        caller: AccountOwner,
        market_id: u64,
        r: Result<(), MarketError>,
    ) -> bool {
        match before.cancel_error(&ledger_before, caller, market_id) {
            Some(e) => {
                &&& r == Err::<(), MarketError>(e)
                &&& after == before
                &&& ledger_after == ledger_before
            },
            None => {
                let id = market_id as int;
                &&& r == Ok::<(), MarketError>(())
                &&& after.markets@ == before.markets@.update(
                    id,
                    (Market { status: MarketStatus::Cancelled, ..before.markets@[id] }),
                )
                &&& after.bets@ == before.bets@
                &&& after.payouts@ == before.payouts@
                &&& after.resolver == before.resolver
                &&& ledger_after.accounts@ == apply_refunds(
                    ledger_before.accounts@,
                    before.bets_of(id),
                )
                &&& ledger_before.same_but_balances(&ledger_after)
            },
        }
    }

    /// What `claim_winnings` gives: `after`, `ledger_after` and `r` are its
    /// effect on `before` and `ledger_before`.
    pub open spec fn claimed(
        before: MarketState,
        after: MarketState,
        ledger_before: TokenState,
        ledger_after: TokenState,
        market_id: u64,
        claimant: AccountOwner,
        now: Timestamp,
        r: Result<Amount, MarketError>,
    ) -> bool {
        match before.claim_error(&ledger_before, market_id, claimant) {
            Some(e) => {
                &&& r == Err::<Amount, MarketError>(e)
                &&& after == before
                &&& ledger_after == ledger_before
            },
            None => {
                let amount = before.claim_amount(market_id, claimant) as Amount;
                &&& r == Ok::<Amount, MarketError>(amount)
                &&& after.spec_has_claimed(market_id, claimant)
                &&& after.payouts@ == before.payouts@.push(
                    (Payout { market_id, winner: claimant, amount, paid_at: now }),
                )
                &&& after.markets@ == before.markets@
                &&& after.bets@ == before.bets@
                &&& after.resolver == before.resolver
                &&& ledger_after.accounts@ == ledger_before.accounts@.insert(
                    claimant,
                    (ledger_before.balance_of(claimant) + amount) as Amount,
                )
                &&& ledger_before.same_but_balances(&ledger_after)
            },
        }
    }

    /// An engine with no markets, resolved by `resolver`.
    pub fn new(resolver: AccountOwner) -> (r: Self)
        ensures
            r.wf(),
            r.resolver == resolver,
            r.markets@.len() == 0,
            r.payouts@.len() == 0,
    {
        MarketState { resolver, markets: Vec::new(), bets: Vec::new(), payouts: Vec::new() }
    }

    /// The id the next market will get.
    pub fn next_market_id(&self) -> (r: u64)
        requires
            self.markets@.len() <= u64::MAX,
        ensures
            r == self.markets@.len(),
    {
        self.markets.len() as u64
    }

    /// Opens a new market for `creator`, charging the creation fee. The
    /// duration, in minutes, must lie between one minute and one day.
    pub fn create_market(
        &mut self,
        ledger: &mut TokenState,
        creator: AccountOwner,
        market_type: MarketType,
        duration_minutes: u64,
        now: Timestamp,
    ) -> (r: Result<u64, MarketError>)
        requires
            old(self).wf(),
            old(self).markets@.len() < u64::MAX,
        ensures
            final(self).wf(),
            Self::created(
                *old(self),
                *final(self),
                *old(ledger),
                *final(ledger),
                creator,
                market_type,
                duration_minutes,
                now,
                r,
            ),
    {
        let duration_micros = match duration_minutes.checked_mul(MICROS_PER_MINUTE) {
            Some(d) => d,
            None => {
                return Err(MarketError::InvalidDuration);
            },
        };
        if duration_micros < MIN_MARKET_DURATION_MICROS || duration_micros
            > MAX_MARKET_DURATION_MICROS {
            return Err(MarketError::InvalidDuration);
        }
        let balance = ledger.balance(creator);
        if balance < MARKET_CREATION_FEE {
            return Err(MarketError::InsufficientFunds);
        }
        ledger.update_balance(creator, balance - MARKET_CREATION_FEE);
        let market_id = self.markets.len() as u64;
        let closes_at = now.saturating_add(duration_micros);
        let market = Market {
            id: market_id,
            creator,
            market_type,
            duration_micros,
            created_at: now,
            closes_at,
            status: MarketStatus::Open,
            total_pool: 0,
            up_pool: 0,
            down_pool: 0,
            outcome: None,
            resolved_at: None,
        };
        let ghost old_self = *self;
        self.markets.push(market);
        self.bets.push(Vec::new());
        proof {
            assert forall|i: int| 0 <= i < self.markets@.len() implies #[trigger] self.market_wf(
                i,
            ) by {
                if i < old_self.markets@.len() {
                    assert(old_self.market_wf(i));
                    assert(self.bets@[i] == old_self.bets@[i]);
                } else {
                    assert(self.bets_of(i) == Seq::<Bet>::empty());
                }
            }
        }
        Ok(market_id)
    }

    /// Which error `place_bet` gives, if any, in the order the checks run.
    pub open spec fn bet_error(
        &self,
        ledger: &TokenState,
        market_id: u64,
        bettor: AccountOwner,
        amount: Amount,
        now: Timestamp,
    ) -> Option<MarketError> {
        if market_id >= self.markets@.len() {
            Some(MarketError::MarketNotFound)
        } else if !self.markets@[market_id as int].spec_is_open(now) {
            Some(MarketError::MarketNotOpen)
        } else if amount < MIN_BET_AMOUNT {
            Some(MarketError::BetTooSmall)
        } else if ledger.balance_of(bettor) < amount {
            Some(MarketError::InsufficientFunds)
        } else if self.markets@[market_id as int].total_pool + amount > u128::MAX {
            Some(MarketError::Overflow)
        } else {
            None
        }
    }

    /// Market `id` after a stake of `amount` on side `p` joins its pools.
    pub open spec fn with_stake(m: Market, p: Prediction, amount: Amount) -> Market {
        match p {
            Prediction::Up => Market {
                total_pool: (m.total_pool + amount) as Amount,
                up_pool: (m.up_pool + amount) as Amount,
                ..m
            },
            Prediction::Down => Market {
                total_pool: (m.total_pool + amount) as Amount,
                down_pool: (m.down_pool + amount) as Amount,
                ..m
            },
        }
    }

    /// Places a bet of `amount` on side `prediction` of market `market_id`,
    /// debiting the stake from the bettor's balance. The market must be open
    /// and before its close time, and the stake at least the minimum bet.
    pub fn place_bet(
        &mut self,
        ledger: &mut TokenState,
        market_id: u64,
        bettor: AccountOwner,
        prediction: Prediction,
        amount: Amount,
        now: Timestamp,
    ) -> (r: Result<(), MarketError>)
        requires
            old(self).wf(),
        ensures
            final(self).wf(),
            Self::bet_placed(
                *old(self),
                *final(self),
                *old(ledger),
                *final(ledger),
                market_id,
                bettor,
                prediction,
                amount,
                now,
                r,
            ),
    {
        if market_id >= self.markets.len() as u64 {
            return Err(MarketError::MarketNotFound);
        }
        let id = market_id as usize;
        if !self.markets[id].is_open(now) {
            return Err(MarketError::MarketNotOpen);
        }
        if amount < MIN_BET_AMOUNT {
            return Err(MarketError::BetTooSmall);
        }
        let balance = ledger.balance(bettor);
        if balance < amount {
            return Err(MarketError::InsufficientFunds);
        }
        let total = match self.markets[id].total_pool.checked_add(amount) {
            Some(t) => t,
            None => {
                return Err(MarketError::Overflow);
            },
        };
        ledger.update_balance(bettor, balance - amount);
        let ghost old_self = *self;
        proof {
            assert(old_self.market_wf(id as int));
        }
        let bet = Bet { bettor, amount, prediction, timestamp: now };
        self.bets[id].push(bet);
        self.markets[id].total_pool = total;
        match prediction {
            Prediction::Up => {
                self.markets[id].up_pool = self.markets[id].up_pool + amount;
            },
            Prediction::Down => {
                self.markets[id].down_pool = self.markets[id].down_pool + amount;
            },
        }
        proof {
            let nb = self.bets_of(id as int);
            assert(nb.drop_last() == old_self.bets_of(id as int));
            assert(self.markets@ =~= old_self.markets@.update(
                id as int,
                Self::with_stake(old_self.markets@[id as int], prediction, amount),
            ));
            assert(nb =~= old_self.bets_of(id as int).push(bet));
            assert forall|i: int| 0 <= i < self.markets@.len() implies #[trigger] self.market_wf(
                i,
            ) by {
                assert(old_self.market_wf(i));
            }
        }
        Ok(())
    }

    /// Which error `resolve_market` gives, if any.
    pub open spec fn resolve_error(
        &self,
        caller: AccountOwner,
        market_id: u64,
        now: Timestamp,
    ) -> Option<MarketError> {
        if caller != self.resolver {
            Some(MarketError::Unauthorized)
        } else if market_id >= self.markets@.len() {
            Some(MarketError::MarketNotFound)
        } else if !self.markets@[market_id as int].spec_can_resolve(now) {
            Some(MarketError::NotReadyToResolve)
        } else {
            None
        }
    }

    /// `self` is `before` with market `market_id` resolved to `outcome` at `now`.
    pub open spec fn resolved_from(
        &self,
        before: MarketState,
        market_id: u64,
        outcome: Outcome,
        now: Timestamp,
    ) -> bool {
        let id = market_id as int;
        &&& self.markets@ == before.markets@.update(
            id,
            (Market {
                status: MarketStatus::Resolved,
                outcome: Some(outcome),
                resolved_at: Some(now),
                ..before.markets@[id]
            }),
        )
        &&& self.bets@ == before.bets@
        &&& self.payouts@ == before.payouts@
        &&& self.resolver == before.resolver
    }

    /// What `resolve_market` gives: `after` and `r` are its effect on `before`.
    pub open spec fn resolution(
        before: MarketState,
        after: MarketState,
        caller: AccountOwner,
        market_id: u64,
        outcome: Outcome,
        now: Timestamp,
        r: Result<(), MarketError>,
    ) -> bool {
        match before.resolve_error(caller, market_id, now) {
            Some(e) => {
                &&& r == Err::<(), MarketError>(e)
                &&& after == before
            },
            None => {
                &&& r == Ok::<(), MarketError>(())
                &&& after.resolved_from(before, market_id, outcome, now)
            },
        }
    }

    /// Settles market `market_id` with `outcome`. Only the configured
    /// resolver may do so, and only for an open market past its close time.
    pub fn resolve_market(
        &mut self,
        caller: AccountOwner,
        market_id: u64,
        outcome: Outcome,
        now: Timestamp,
    ) -> (r: Result<(), MarketError>)
        requires
            old(self).wf(),
        ensures
            final(self).wf(),
            Self::resolution(
                *old(self),
                *final(self),
                caller,
                market_id,
                outcome,
                now,
                r,
            ),
    {
        if caller != self.resolver {
            return Err(MarketError::Unauthorized);
        }
        if market_id >= self.markets.len() as u64 {
            return Err(MarketError::MarketNotFound);
        }
        let id = market_id as usize;
        if !self.markets[id].can_resolve(now) {
            return Err(MarketError::NotReadyToResolve);
        }
        let ghost old_self = *self;
        self.markets[id].status = MarketStatus::Resolved;
        self.markets[id].outcome = Some(outcome);
        self.markets[id].resolved_at = Some(now);
        proof {
            assert forall|i: int| 0 <= i < self.markets@.len() implies #[trigger] self.market_wf(
                i,
            ) by {
                assert(old_self.market_wf(i));
            }
            assert forall|j: int| 0 <= j < self.payouts@.len() implies {
                let p = #[trigger] self.payouts@[j];
                &&& p.market_id < self.markets@.len()
                &&& self.markets@[p.market_id as int].status == MarketStatus::Resolved
            } by {
                let p = self.payouts@[j];
                assert(old_self.markets@[p.market_id as int].status == MarketStatus::Resolved);
            }
            assert(self.markets@ =~= old_self.markets@.update(
                id as int,
                (Market {
                    status: MarketStatus::Resolved,
                    outcome: Some(outcome),
                    resolved_at: Some(now),
                    ..old_self.markets@[id as int]
                }),
            ));
        }
        Ok(())
    }

    /// Which error `cancel_market` gives, if any.
    pub open spec fn cancel_error(
        &self,
        ledger: &TokenState,
        caller: AccountOwner,
        market_id: u64,
    ) -> Option<MarketError> {
        if market_id >= self.markets@.len() {
            Some(MarketError::MarketNotFound)
        } else if caller != self.markets@[market_id as int].creator {
            Some(MarketError::Unauthorized)
        } else if self.markets@[market_id as int].status != MarketStatus::Open {
            Some(MarketError::InvalidTransition)
        } else if !refunds_fit(ledger.accounts@, self.bets_of(market_id as int)) {
            Some(MarketError::Overflow)
        } else {
            None
        }
    }

    /// Cancels open market `market_id` on its creator's request and refunds
    /// every bet to its bettor, in the order the bets were placed. Either
    /// every refund is made or none is.
    pub fn cancel_market(
        &mut self,
        ledger: &mut TokenState,
        caller: AccountOwner,
        market_id: u64,
    ) -> (r: Result<(), MarketError>)
        requires
            old(self).wf(),
        ensures
            final(self).wf(),
            Self::cancelled(
                *old(self),
                *final(self),
                *old(ledger),
                *final(ledger),
                caller,
                market_id,
                r,
            ),
    {
        if market_id >= self.markets.len() as u64 {
            return Err(MarketError::MarketNotFound);
        }
        let id = market_id as usize;
        if caller != self.markets[id].creator {
            return Err(MarketError::Unauthorized);
        }
        if self.markets[id].status != MarketStatus::Open {
            return Err(MarketError::InvalidTransition);
        }
        // Refunds go to a scratch copy of the balances, committed only once
        // every credit has succeeded.
        let mut scratch = ledger.accounts.clone();
        let ghost bets = self.bets_of(id as int);
        let ghost start = ledger.accounts@;
        let n = self.bets[id].len();
        let mut k: usize = 0;
        proof {
            assert(bets.take(0) == Seq::<Bet>::empty());
        }
        while k < n
            invariant
                0 <= k <= n,
                *self == *old(self),
                *ledger == *old(ledger),
                self.wf(),
                market_id == id,
                id < self.markets@.len(),
                caller == self.markets@[id as int].creator,
                self.markets@[id as int].status == MarketStatus::Open,
                n == bets.len(),
                id < self.bets@.len(),
                bets == self.bets_of(id as int),
                start == ledger.accounts@,
                scratch@ == apply_refunds(start, bets.take(k as int)),
                refunds_fit(start, bets.take(k as int)),
            decreases n - k,
        {
            let b = self.bets[id][k];
            let balance = match scratch.get(&b.bettor) {
                Some(v) => *v,
                None => 0,
            };
            proof {
                let t = bets.take(k as int + 1);
                assert(t.drop_last() == bets.take(k as int));
                assert(t.last() == b);
            }
            match balance.checked_add(b.amount) {
                Some(v) => {
                    scratch.insert(b.bettor, v);
                },
                None => {
                    proof {
                        let t = bets.take(k as int + 1);
                        assert(!refunds_fit(start, t));
                        if refunds_fit(start, bets) {
                            lemma_refunds_fit_prefix(start, bets, k as int + 1);
                        }
                    }
                    return Err(MarketError::Overflow);
                },
            }
            k = k + 1;
        }
        proof {
            assert(bets.take(n as int) == bets);
        }
        let ghost old_self = *self;
        ledger.accounts = scratch;
        self.markets[id].status = MarketStatus::Cancelled;
        proof {
            assert forall|i: int| 0 <= i < self.markets@.len() implies #[trigger] self.market_wf(
                i,
            ) by {
                assert(old_self.market_wf(i));
            }
            assert forall|j: int| 0 <= j < self.payouts@.len() implies {
                let p = #[trigger] self.payouts@[j];
                &&& p.market_id < self.markets@.len()
                &&& self.markets@[p.market_id as int].status == MarketStatus::Resolved
            } by {
                let p = self.payouts@[j];
                assert(old_self.markets@[p.market_id as int].status == MarketStatus::Resolved);
            }
        }
        Ok(())
    }

    /// Whether `account` has been paid for market `market_id`.
    pub fn has_claimed(&self, market_id: u64, account: AccountOwner) -> (r: bool)
        ensures
            r == self.spec_has_claimed(market_id, account),
    {
        let n = self.payouts.len();
        let mut j: usize = 0;
        while j < n
            invariant
                0 <= j <= n,
                n == self.payouts@.len(),
                forall|i: int|
                    0 <= i < j ==> !(#[trigger] self.payouts@[i].market_id == market_id
                        && self.payouts@[i].winner == account),
            decreases n - j,
        {
            if self.payouts[j].market_id == market_id && self.payouts[j].winner == account {
                return true;
            }
            j = j + 1;
        }
        false
    }

    /// Which error `claim_winnings` gives, if any, in the order the checks run.
    pub open spec fn claim_error(
        &self,
        ledger: &TokenState,
        market_id: u64,
        claimant: AccountOwner,
    ) -> Option<MarketError> {
        if self.spec_has_claimed(market_id, claimant) {
            Some(MarketError::AlreadyClaimed)
        } else if market_id >= self.markets@.len() {
            Some(MarketError::MarketNotFound)
        } else if self.markets@[market_id as int].status != MarketStatus::Resolved {
            Some(MarketError::MarketNotResolved)
        } else if !has_bet(self.bets_of(market_id as int), claimant) {
            Some(MarketError::NoBets)
        } else if self.claim_amount(market_id, claimant) == 0 {
            Some(MarketError::NoWinnings)
        } else if ledger.balance_of(claimant) + self.claim_amount(market_id, claimant)
            > u128::MAX {
            Some(MarketError::Overflow)
        } else {
            None
        }
    }

    /// What `claimant` is owed from market `market_id`.
    pub open spec fn claim_amount(&self, market_id: u64, claimant: AccountOwner) -> int {
        winnings(self.bets_of(market_id as int), claimant, self.markets@[market_id as int])
    }

    /// Pays `claimant` what its winning bets on resolved market `market_id`
    /// earned, once: the claim is recorded before the balance is credited,
    /// and a second claim fails.
    pub fn claim_winnings(
        &mut self,
        ledger: &mut TokenState,
        market_id: u64,
        claimant: AccountOwner,
        now: Timestamp,
    ) -> (r: Result<Amount, MarketError>)
        requires
            old(self).wf(),
        ensures
            final(self).wf(),
            Self::claimed(
                *old(self),
                *final(self),
                *old(ledger),
                *final(ledger),
                market_id,
                claimant,
                now,
                r,
            ),
    {
        if self.has_claimed(market_id, claimant) {
            return Err(MarketError::AlreadyClaimed);
        }
        if market_id >= self.markets.len() as u64 {
            return Err(MarketError::MarketNotFound);
        }
        let id = market_id as usize;
        if self.markets[id].status != MarketStatus::Resolved {
            return Err(MarketError::MarketNotResolved);
        }
        proof {
            assert(self.market_wf(id as int));
        }
        let outcome = match self.markets[id].outcome {
            Some(o) => o,
            None => {
                return Err(MarketError::MarketNotResolved);
            },
        };
        let winning_side = Prediction::from(outcome);
        let ghost m = self.markets@[id as int];
        let ghost bets = self.bets_of(id as int);
        proof {
            assert(self.market_wf(id as int));
            lemma_account_side_le_side(bets, claimant, winning_side);
        }
        let n = self.bets[id].len();
        let mut found = false;
        let mut total: u128 = 0;
        let mut k: usize = 0;
        proof {
            assert(bets.take(0) == Seq::<Bet>::empty());
        }
        while k < n
            invariant
                0 <= k <= n,
                *self == *old(self),
                *ledger == *old(ledger),
                self.wf(),
                id == market_id,
                id < self.markets@.len(),
                m == self.markets@[id as int],
                m.outcome == Some(outcome),
                winning_side == winning_prediction(outcome),
                bets == self.bets_of(id as int),
                n == bets.len(),
                account_side_sum(bets, claimant, winning_side) <= m.pool_for(outcome),
                found == has_bet(bets.take(k as int), claimant),
                total == winnings(bets.take(k as int), claimant, m),
            decreases n - k,
        {
            let b = self.bets[id][k];
            let ghost t = bets.take(k as int + 1);
            proof {
                assert(t.drop_last() == bets.take(k as int));
                assert(t.last() == b);
                lemma_account_side_prefix(bets, claimant, winning_side, k as int + 1);
                lemma_winnings_within_pool(t, claimant, m, outcome);
            }
            if b.bettor == claimant {
                found = true;
                if b.prediction == winning_side {
                    proof {
                        lemma_stake_within_pool(t, claimant, winning_side);
                        lemma_share_within_pool(m, outcome, b.amount as int);
                    }
                    let share = self.markets[id].calculate_payout(b.amount);
                    total = total + share;
                }
            }
            proof {
                assert(found == has_bet(t, claimant)) by {
                    if found {
                        if b.bettor == claimant {
                            assert(t[k as int].bettor == claimant);
                        } else {
                            let i = choose|i: int|
                                0 <= i < k && #[trigger] bets.take(k as int)[i].bettor == claimant;
                            assert(t[i] == bets.take(k as int)[i]);
                        }
                    } else {
                        assert forall|i: int| 0 <= i < t.len() implies #[trigger] t[i].bettor
                            != claimant by {
                            if i < k {
                                assert(t[i] == bets.take(k as int)[i]);
                            }
                        }
                    }
                }
            }
            k = k + 1;
        }
        proof {
            assert(bets.take(n as int) == bets);
        }
        if !found {
            return Err(MarketError::NoBets);
        }
        if total == 0 {
            return Err(MarketError::NoWinnings);
        }
        let balance = ledger.balance(claimant);
        let credited = match balance.checked_add(total) {
            Some(v) => v,
            None => {
                return Err(MarketError::Overflow);
            },
        };
        let ghost old_self = *self;
        self.payouts.push(Payout { market_id, winner: claimant, amount: total, paid_at: now });
        ledger.update_balance(claimant, credited);
        proof {
            assert forall|i: int| 0 <= i < self.markets@.len() implies #[trigger] self.market_wf(
                i,
            ) by {
                assert(old_self.market_wf(i));
            }
            assert forall|j: int, l: int| 0 <= j < l < self.payouts@.len() implies !(
            #[trigger] self.payouts@[j].market_id == #[trigger] self.payouts@[l].market_id
                && self.payouts@[j].winner == self.payouts@[l].winner) by {
                if l == old_self.payouts@.len() {
                    assert(old_self.payouts@[j] == self.payouts@[j]);
                }
            }
            let last = old_self.payouts@.len() as int;
            assert(self.payouts@[last].market_id == market_id && self.payouts@[last].winner
                == claimant);
        }
        Ok(total)
    }

    /// The market with id `market_id`, if there is one.
    pub fn market(&self, market_id: u64) -> (r: Option<&Market>)
        ensures
            market_id < self.markets@.len() ==> r == Some(&self.markets@[market_id as int]),
            market_id >= self.markets@.len() ==> r is None,
    {
        if market_id < self.markets.len() as u64 {
            Some(&self.markets[market_id as usize])
        } else {
            None
        }
    }

    /// The bets recorded on market `market_id`, in recording order; none for
    /// an unknown market.
    pub fn market_bets(&self, market_id: u64) -> (r: &[Bet])
        requires
            self.wf(),
        ensures
            market_id < self.markets@.len() ==> r@ == self.bets_of(market_id as int),
            market_id >= self.markets@.len() ==> r@.len() == 0,
    {
        if market_id < self.bets.len() as u64 {
            self.bets[market_id as usize].as_slice()
        } else {
            &[]
        }
    }

    /// The bets `account` placed on market `market_id`, in recording order;
    /// none for an unknown market.
    pub fn account_bets(&self, market_id: u64, account: AccountOwner) -> (r: Vec<Bet>)
        requires
            self.wf(),
        ensures
            market_id < self.markets@.len() ==> r@ == self.bets_of(market_id as int).filter(
                placed_by(account),
            ),
            market_id >= self.markets@.len() ==> r@.len() == 0,
    {
        let mut r: Vec<Bet> = Vec::new();
        if market_id >= self.bets.len() as u64 {
            return r;
        }
        let id = market_id as usize;
        let ghost bets = self.bets_of(id as int);
        let n = self.bets[id].len();
        let mut k: usize = 0;
        proof {
            reveal(Seq::filter);
            assert(bets.take(0) == Seq::<Bet>::empty());
        }
        while k < n
            invariant
                0 <= k <= n,
                id < self.bets@.len(),
                bets == self.bets_of(id as int),
                n == bets.len(),
                r@ == bets.take(k as int).filter(placed_by(account)),
            decreases n - k,
        {
            let b = self.bets[id][k];
            proof {
                reveal(Seq::filter);
                assert(bets.take(k as int + 1).drop_last() == bets.take(k as int));
                assert(bets.take(k as int + 1).last() == b);
            }
            if b.bettor == account {
                r.push(b);
            }
            k = k + 1;
        }
        proof {
            assert(bets.take(n as int) == bets);
        }
        r
    }

    /// Carries out one market command on behalf of `caller` at `now`.
    pub fn execute_operation(
        &mut self,
        ledger: &mut TokenState,
        caller: AccountOwner,
        operation: MarketOperation,
        now: Timestamp,
    ) -> (r: Result<MarketResponse, MarketError>)
        requires
            old(self).wf(),
            old(self).markets@.len() < u64::MAX,
        ensures
            final(self).wf(),
            forall|i: int|
                0 <= i < final(self).markets@.len() ==> {
                    let m = #[trigger] final(self).markets@[i];
                    &&& m.total_pool == m.up_pool + m.down_pool
                    &&& bets_sum(final(self).bets_of(i)) == m.total_pool
                },
            old(self).payouts@.is_prefix_of(final(self).payouts@),
            forall|id: u64, a: AccountOwner|
                #[trigger] old(self).spec_has_claimed(id, a) ==> final(self).spec_has_claimed(
                    id,
                    a,
                ),
            match operation {
                MarketOperation::CreateMarket { market_type, duration_minutes } => exists|
                    v: Result<u64, MarketError>,
                |
                    #[trigger] Self::created(
                        *old(self),
                        *final(self),
                        *old(ledger),
                        *final(ledger),
                        caller,
                        market_type,
                        duration_minutes,
                        now,
                        v,
                    ) && r == match v {
                        Ok(id) => Ok::<MarketResponse, MarketError>(MarketResponse::MarketId(id)),
                        Err(e) => Err(e),
                    },
                MarketOperation::PlaceBet { market_id, prediction, amount } => exists|
                    v: Result<(), MarketError>,
                |
                    #[trigger] Self::bet_placed(
                        *old(self),
                        *final(self),
                        *old(ledger),
                        *final(ledger),
                        market_id,
                        caller,
                        prediction,
                        amount,
                        now,
                        v,
                    ) && r == done_or(v),
                MarketOperation::ResolveMarket { market_id, outcome } => exists|
                    v: Result<(), MarketError>,
                |
                    #[trigger] Self::resolution(
                        *old(self),
                        *final(self),
                        caller,
                        market_id,
                        outcome,
                        now,
                        v,
                    ) && r == done_or(v) && *final(ledger) == *old(ledger),
                MarketOperation::CancelMarket { market_id } => exists|v: Result<(), MarketError>|
                    #[trigger] Self::cancelled(
                        *old(self),
                        *final(self),
                        *old(ledger),
                        *final(ledger),
                        caller,
                        market_id,
                        v,
                    ) && r == done_or(v),
                MarketOperation::ClaimWinnings { market_id } => exists|
                    v: Result<Amount, MarketError>,
                |
                    #[trigger] Self::claimed(
                        *old(self),
                        *final(self),
                        *old(ledger),
                        *final(ledger),
                        market_id,
                        caller,
                        now,
                        v,
                    ) && r == match v {
                        Ok(x) => Ok::<MarketResponse, MarketError>(MarketResponse::Payout(x)),
                        Err(e) => Err(e),
                    },
            },
    {
        let ghost before = *self;
        let r = match operation {
            MarketOperation::CreateMarket { market_type, duration_minutes } => {
                match self.create_market(ledger, caller, market_type, duration_minutes, now) {
                    Ok(id) => Ok(MarketResponse::MarketId(id)),
                    Err(e) => Err(e),
                }
            },
            MarketOperation::PlaceBet { market_id, prediction, amount } => {
                let v = self.place_bet(ledger, market_id, caller, prediction, amount, now);
                match v {
                    Ok(()) => Ok(MarketResponse::Done),
                    Err(e) => Err(e),
                }
            },
            MarketOperation::ResolveMarket { market_id, outcome } => {
                let v = self.resolve_market(caller, market_id, outcome, now);
                match v {
                    Ok(()) => Ok(MarketResponse::Done),
                    Err(e) => Err(e),
                }
            },
            MarketOperation::CancelMarket { market_id } => {
                let v = self.cancel_market(ledger, caller, market_id);
                match v {
                    Ok(()) => Ok(MarketResponse::Done),
                    Err(e) => Err(e),
                }
            },
            MarketOperation::ClaimWinnings { market_id } => {
                match self.claim_winnings(ledger, market_id, caller, now) {
                    Ok(x) => Ok(MarketResponse::Payout(x)),
                    Err(e) => Err(e),
                }
            },
        };
        proof {
            assert(before.payouts@.is_prefix_of(self.payouts@));
            assert forall|i: int| 0 <= i < self.markets@.len() implies {
                let m = #[trigger] self.markets@[i];
                &&& m.total_pool == m.up_pool + m.down_pool
                &&& bets_sum(self.bets_of(i)) == m.total_pool
            } by {
                lemma_bets_sum_to_pool(*self, i);
                lemma_pools_balanced(*self, i);
            }
            assert forall|id: u64, a: AccountOwner| #[trigger]
                before.spec_has_claimed(id, a) implies self.spec_has_claimed(id, a) by {
                lemma_claim_is_permanent(before, *self, id, a);
            }
        }
        r
    }
}

} // verus!
