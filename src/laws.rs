//! Properties of the settlement engine that hold across its operations.
use vstd::prelude::*;

use crate::abi::{AccountOwner, Amount, Bet, Prediction};
use crate::market::{
    account_sum, apply_refunds, bets_sum, refunds_fit, side_sum, MarketError, MarketState,
};
use crate::token::{balance_in, TokenState};

verus! {

/// The balances after debiting each bet's stake from its bettor, in order,
/// as `place_bet` does.
pub open spec fn apply_debits(accounts: Map<AccountOwner, Amount>, bets: Seq<Bet>) -> Map<
    AccountOwner,
    Amount,
>
    decreases bets.len(),
{
    if bets.len() == 0 {
        accounts
    } else {
        let before = apply_debits(accounts, bets.drop_last());
        let b = bets.last();
        before.insert(b.bettor, (balance_in(before, b.bettor) - b.amount) as Amount)
    }
}

/// Each debit of the sequence found the bettor's balance large enough.
pub open spec fn debits_fit(accounts: Map<AccountOwner, Amount>, bets: Seq<Bet>) -> bool
    decreases bets.len(),
{
    if bets.len() == 0 {
        true
    } else {
        let before = apply_debits(accounts, bets.drop_last());
        let b = bets.last();
        debits_fit(accounts, bets.drop_last()) && balance_in(before, b.bettor) >= b.amount
    }
}

/// In every market the total pool is the sum of the up and down pools.
pub proof fn lemma_pools_balanced(s: MarketState, id: int)
    requires
        s.wf(),
        0 <= id < s.markets@.len(),
    ensures
        s.markets@[id].total_pool == s.markets@[id].up_pool + s.markets@[id].down_pool,
        s.markets@[id].up_pool >= 0,
        s.markets@[id].down_pool >= 0,
{
    assert(s.market_wf(id));
}

/// The stakes of all bets on one side and the other add up to all stakes.
proof fn lemma_sides_cover(bets: Seq<Bet>)
    ensures
        bets_sum(bets) == side_sum(bets, Prediction::Up) + side_sum(bets, Prediction::Down),
    decreases bets.len(),
{
    if bets.len() > 0 {
        lemma_sides_cover(bets.drop_last());
    }
}

/// The stakes recorded on a market sum to its total pool.
pub proof fn lemma_bets_sum_to_pool(s: MarketState, id: int)
    requires
        s.wf(),
        0 <= id < s.markets@.len(),
    ensures
        bets_sum(s.bets_of(id)) == s.markets@[id].total_pool,
{
    assert(s.market_wf(id));
    lemma_sides_cover(s.bets_of(id));
}

/// Once an account has been paid for a market, every later claim of it on
/// that market fails with `AlreadyClaimed`.
pub proof fn lemma_second_claim_fails(
    s: MarketState,
    ledger: TokenState,
    market_id: u64,
    account: AccountOwner,
)
    requires
        s.wf(),
        s.spec_has_claimed(market_id, account),
    ensures
        s.claim_error(&ledger, market_id, account) == Some(MarketError::AlreadyClaimed),
{
}

/// No two payout records share a market and an account: each account is
/// paid at most once per market.
pub proof fn lemma_payouts_unique(s: MarketState, j: int, k: int)
    requires
        s.wf(),
        0 <= j < k < s.payouts@.len(),
    ensures
        !(s.payouts@[j].market_id == s.payouts@[k].market_id && s.payouts@[j].winner
            == s.payouts@[k].winner),
{
}

/// A payout record, once written, stays: a state whose payouts extend those
/// of an earlier one still records every claim the earlier one recorded.
pub proof fn lemma_claim_is_permanent(
    before: MarketState,
    after: MarketState,
    market_id: u64,
    account: AccountOwner,
)
    requires
        before.payouts@.is_prefix_of(after.payouts@),
        before.spec_has_claimed(market_id, account),
    ensures
        after.spec_has_claimed(market_id, account),
{
    let j = choose|j: int|
        0 <= j < before.payouts@.len() && #[trigger] before.payouts@[j].market_id == market_id
            && before.payouts@[j].winner == account;
    assert(after.payouts@[j] == before.payouts@[j]);
}

/// The refund pass gives each account back exactly the sum of its stakes.
pub proof fn lemma_refunds_return_stakes(
    accounts: Map<AccountOwner, Amount>,
    bets: Seq<Bet>,
    a: AccountOwner,
)
    requires
        refunds_fit(accounts, bets),
    ensures
        balance_in(apply_refunds(accounts, bets), a) == balance_in(accounts, a) + account_sum(
            bets,
            a,
        ),
    decreases bets.len(),
{
    if bets.len() > 0 {
        lemma_refunds_return_stakes(accounts, bets.drop_last(), a);
    }
}

/// The debits take from each account exactly the sum of its stakes.
proof fn lemma_debits_take_stakes(
    accounts: Map<AccountOwner, Amount>,
    bets: Seq<Bet>,
    a: AccountOwner,
)
    requires
        debits_fit(accounts, bets),
    ensures
        balance_in(apply_debits(accounts, bets), a) == balance_in(accounts, a) - account_sum(
            bets,
            a,
        ),
    decreases bets.len(),
{
    if bets.len() > 0 {
        lemma_debits_take_stakes(accounts, bets.drop_last(), a);
    }
}

/// An account's stakes on a prefix of the bets never exceed its stakes on all.
proof fn lemma_account_sum_prefix(bets: Seq<Bet>, a: AccountOwner, k: int)
    requires
        0 <= k <= bets.len(),
    ensures
        0 <= account_sum(bets.take(k), a) <= account_sum(bets, a),
    decreases bets.len(),
{
    if k == bets.len() {
        assert(bets.take(k) == bets);
        lemma_account_sum_nonneg(bets, a);
    } else {
        assert(bets.drop_last().take(k) == bets.take(k));
        lemma_account_sum_prefix(bets.drop_last(), a, k);
    }
}

proof fn lemma_account_sum_nonneg(bets: Seq<Bet>, a: AccountOwner)
    ensures
        account_sum(bets, a) >= 0,
    decreases bets.len(),
{
    if bets.len() > 0 {
        lemma_account_sum_nonneg(bets.drop_last(), a);
    }
}

/// Refunding, on top of the debits, a prefix of the bets leaves each account
/// with its starting balance less the stakes not yet refunded.
proof fn lemma_partial_round_trip(start: Map<AccountOwner, Amount>, bets: Seq<Bet>, k: int)
    requires
        debits_fit(start, bets),
        0 <= k <= bets.len(),
    ensures
        refunds_fit(apply_debits(start, bets), bets.take(k)),
        forall|a: AccountOwner|
            #[trigger] balance_in(apply_refunds(apply_debits(start, bets), bets.take(k)), a)
                == balance_in(start, a) - account_sum(bets, a) + account_sum(bets.take(k), a),
    decreases k,
{
    let mid = apply_debits(start, bets);
    if k == 0 {
        assert(bets.take(0) == Seq::<Bet>::empty());
        assert forall|a: AccountOwner|
            #[trigger] balance_in(apply_refunds(mid, bets.take(k)), a) == balance_in(start, a)
                - account_sum(bets, a) + account_sum(bets.take(k), a) by {
            lemma_debits_take_stakes(start, bets, a);
        }
    } else {
        lemma_partial_round_trip(start, bets, k - 1);
        let t = bets.take(k);
        assert(t.drop_last() == bets.take(k - 1));
        let b = t.last();
        lemma_account_sum_prefix(bets, b.bettor, k);
        lemma_account_sum_prefix(bets, b.bettor, k - 1);
        assert(balance_in(start, b.bettor) <= u128::MAX);
        assert forall|a: AccountOwner|
            #[trigger] balance_in(apply_refunds(mid, t), a) == balance_in(start, a) - account_sum(
                bets,
                a,
            ) + account_sum(t, a) by {
            assert(balance_in(apply_refunds(mid, t.drop_last()), a) == balance_in(start, a)
                - account_sum(bets, a) + account_sum(t.drop_last(), a));
        }
    }
}

/// Cancelling returns every bettor to its balance before it bet: refunding,
/// in order, bets whose stakes were debited in that order restores each
/// starting balance, and no credit of the pass overflows.
pub proof fn lemma_cancel_round_trip(start: Map<AccountOwner, Amount>, bets: Seq<Bet>)
    requires
        debits_fit(start, bets),
    ensures
        refunds_fit(apply_debits(start, bets), bets),
        forall|a: AccountOwner|
            #[trigger] balance_in(apply_refunds(apply_debits(start, bets), bets), a)
                == balance_in(start, a),
{
    lemma_partial_round_trip(start, bets, bets.len() as int);
    assert(bets.take(bets.len() as int) == bets);
}

} // verus!
