use prediction_market::abi::{
    Market, MarketStatus, MarketType, Outcome, Prediction, MARKET_CREATION_FEE, MIN_BET_AMOUNT,
};
use prediction_market::market::{MarketError, MarketOperation, MarketResponse, MarketState};
use prediction_market::token::TokenState;

const RESOLVER: u64 = 99;
const CREATOR: u64 = 1;
const ALICE: u64 = 2;
const BOB: u64 = 3;
const CAROL: u64 = 4;
const HOUR_MICROS: u64 = 3_600_000_000;

fn custom() -> MarketType {
    MarketType::Custom { description: "Will it rain tomorrow?".to_string() }
}

/// A ledger where each of the four accounts holds `each`, an engine, and one
/// open hour-long market created at time 0.
fn setup(each: u128) -> (MarketState, TokenState, u64) {
    let mut ledger = TokenState::new(0, 0, 0);
    for a in [CREATOR, ALICE, BOB, CAROL] {
        ledger.update_balance(a, each);
    }
    let mut engine = MarketState::new(RESOLVER);
    let id = engine.create_market(&mut ledger, CREATOR, custom(), 60, 0).unwrap();
    (engine, ledger, id)
}

fn market(engine: &MarketState, id: u64) -> &Market {
    engine.market(id).unwrap()
}

#[test]
fn two_sided_market_pays_winner() {
    let (mut engine, mut ledger, id) = setup(10_000_000);
    assert_eq!(id, 0);
    assert_eq!(ledger.balance(CREATOR), 10_000_000 - MARKET_CREATION_FEE);
    engine.place_bet(&mut ledger, id, ALICE, Prediction::Up, 1_000_000, 10).unwrap();
    engine.place_bet(&mut ledger, id, BOB, Prediction::Down, 3_000_000, 20).unwrap();
    assert_eq!(ledger.balance(ALICE), 9_000_000);
    assert_eq!(ledger.balance(BOB), 7_000_000);
    engine.resolve_market(RESOLVER, id, Outcome::Up, HOUR_MICROS).unwrap();
    let paid = engine.claim_winnings(&mut ledger, id, ALICE, HOUR_MICROS + 5).unwrap();
    assert_eq!(paid, 3_800_000);
    assert_eq!(ledger.balance(ALICE), 9_000_000 + 3_800_000);
    assert_eq!(engine.payouts.len(), 1);
    assert_eq!(engine.payouts[0].winner, ALICE);
    assert_eq!(engine.payouts[0].amount, 3_800_000);
    assert_eq!(engine.payouts[0].paid_at, HOUR_MICROS + 5);
}

#[test]
fn losing_side_cannot_claim() {
    let (mut engine, mut ledger, id) = setup(10_000_000);
    engine.place_bet(&mut ledger, id, ALICE, Prediction::Down, 1_000_000, 10).unwrap();
    engine.place_bet(&mut ledger, id, BOB, Prediction::Down, 2_000_000, 10).unwrap();
    engine.resolve_market(RESOLVER, id, Outcome::Up, HOUR_MICROS).unwrap();
    let before = ledger.balance(ALICE);
    assert_eq!(
        engine.claim_winnings(&mut ledger, id, ALICE, HOUR_MICROS),
        Err(MarketError::NoWinnings)
    );
    assert_eq!(
        engine.claim_winnings(&mut ledger, id, BOB, HOUR_MICROS),
        Err(MarketError::NoWinnings)
    );
    assert_eq!(ledger.balance(ALICE), before);
    assert!(engine.payouts.is_empty());
}

#[test]
fn cancel_by_non_creator_is_refused() {
    let (mut engine, mut ledger, id) = setup(10_000_000);
    engine.place_bet(&mut ledger, id, ALICE, Prediction::Up, 1_000_000, 10).unwrap();
    let alice = ledger.balance(ALICE);
    assert_eq!(engine.cancel_market(&mut ledger, ALICE, id), Err(MarketError::Unauthorized));
    assert_eq!(market(&engine, id).status, MarketStatus::Open);
    assert_eq!(ledger.balance(ALICE), alice);
}

#[test]
fn second_claim_fails() {
    let (mut engine, mut ledger, id) = setup(10_000_000);
    engine.place_bet(&mut ledger, id, ALICE, Prediction::Up, 1_000_000, 10).unwrap();
    engine.place_bet(&mut ledger, id, BOB, Prediction::Down, 3_000_000, 10).unwrap();
    engine.resolve_market(RESOLVER, id, Outcome::Up, HOUR_MICROS).unwrap();
    let first = engine.claim_winnings(&mut ledger, id, ALICE, HOUR_MICROS).unwrap();
    assert!(first > 0);
    assert!(engine.has_claimed(id, ALICE));
    let after_first = ledger.balance(ALICE);
    assert_eq!(
        engine.claim_winnings(&mut ledger, id, ALICE, HOUR_MICROS + 1),
        Err(MarketError::AlreadyClaimed)
    );
    assert_eq!(ledger.balance(ALICE), after_first);
    assert_eq!(engine.payouts.len(), 1);
}

#[test]
fn minimum_bet_boundary() {
    let (mut engine, mut ledger, id) = setup(10_000_000);
    assert_eq!(
        engine.place_bet(&mut ledger, id, ALICE, Prediction::Up, MIN_BET_AMOUNT - 1, 10),
        Err(MarketError::BetTooSmall)
    );
    assert_eq!(ledger.balance(ALICE), 10_000_000);
    assert_eq!(engine.place_bet(&mut ledger, id, ALICE, Prediction::Up, MIN_BET_AMOUNT, 10), Ok(()));
    assert_eq!(ledger.balance(ALICE), 10_000_000 - MIN_BET_AMOUNT);
}

#[test]
fn pools_match_recorded_bets() {
    let (mut engine, mut ledger, id) = setup(10_000_000);
    engine.place_bet(&mut ledger, id, ALICE, Prediction::Up, 150_000, 1).unwrap();
    engine.place_bet(&mut ledger, id, BOB, Prediction::Down, 250_000, 2).unwrap();
    engine.place_bet(&mut ledger, id, ALICE, Prediction::Down, 400_000, 3).unwrap();
    let m = market(&engine, id);
    assert_eq!(m.up_pool, 150_000);
    assert_eq!(m.down_pool, 650_000);
    assert_eq!(m.total_pool, m.up_pool + m.down_pool);
    let bets = engine.market_bets(id);
    assert_eq!(bets.len(), 3);
    assert_eq!(bets.iter().map(|b| b.amount).sum::<u128>(), m.total_pool);
    assert_eq!(bets[2].bettor, ALICE);
    assert_eq!(bets[2].prediction, Prediction::Down);
    assert_eq!(bets[2].timestamp, 3);
}

#[test]
fn cancel_refunds_every_bettor() {
    let (mut engine, mut ledger, id) = setup(10_000_000);
    engine.place_bet(&mut ledger, id, ALICE, Prediction::Up, 1_000_000, 1).unwrap();
    engine.place_bet(&mut ledger, id, BOB, Prediction::Down, 2_000_000, 2).unwrap();
    engine.place_bet(&mut ledger, id, ALICE, Prediction::Down, 500_000, 3).unwrap();
    assert_eq!(ledger.balance(ALICE), 8_500_000);
    assert_eq!(engine.cancel_market(&mut ledger, CREATOR, id), Ok(()));
    assert_eq!(market(&engine, id).status, MarketStatus::Cancelled);
    assert_eq!(ledger.balance(ALICE), 10_000_000);
    assert_eq!(ledger.balance(BOB), 10_000_000);
    assert_eq!(ledger.balance(CAROL), 10_000_000);
    assert_eq!(
        engine.cancel_market(&mut ledger, CREATOR, id),
        Err(MarketError::InvalidTransition)
    );
    assert_eq!(
        engine.place_bet(&mut ledger, id, CAROL, Prediction::Up, 1_000_000, 4),
        Err(MarketError::MarketNotOpen)
    );
}

#[test]
fn cancel_that_would_overflow_changes_nothing() {
    let (mut engine, mut ledger, id) = setup(10_000_000);
    engine.place_bet(&mut ledger, id, ALICE, Prediction::Up, 1_000_000, 1).unwrap();
    engine.place_bet(&mut ledger, id, BOB, Prediction::Up, 1_000_000, 1).unwrap();
    ledger.update_balance(BOB, u128::MAX);
    assert_eq!(engine.cancel_market(&mut ledger, CREATOR, id), Err(MarketError::Overflow));
    assert_eq!(ledger.balance(ALICE), 9_000_000);
    assert_eq!(ledger.balance(BOB), u128::MAX);
    assert_eq!(market(&engine, id).status, MarketStatus::Open);
}

#[test]
fn create_market_checks_duration_and_fee() {
    let mut ledger = TokenState::new(0, 0, 0);
    ledger.update_balance(CREATOR, MARKET_CREATION_FEE);
    let mut engine = MarketState::new(RESOLVER);
    assert_eq!(
        engine.create_market(&mut ledger, CREATOR, custom(), 0, 0),
        Err(MarketError::InvalidDuration)
    );
    assert_eq!(
        engine.create_market(&mut ledger, CREATOR, custom(), 24 * 60 + 1, 0),
        Err(MarketError::InvalidDuration)
    );
    assert_eq!(
        engine.create_market(&mut ledger, CREATOR, custom(), u64::MAX, 0),
        Err(MarketError::InvalidDuration)
    );
    assert_eq!(
        engine.create_market(&mut ledger, ALICE, custom(), 60, 0),
        Err(MarketError::InsufficientFunds)
    );
    assert_eq!(engine.next_market_id(), 0);
    assert_eq!(engine.create_market(&mut ledger, CREATOR, custom(), 24 * 60, 7), Ok(0));
    assert_eq!(ledger.balance(CREATOR), 0);
    let m = market(&engine, 0);
    assert_eq!(m.creator, CREATOR);
    assert_eq!(m.created_at, 7);
    assert_eq!(m.duration_micros, 86_400_000_000);
    assert_eq!(m.closes_at, 7 + 86_400_000_000);
    assert_eq!(m.status, MarketStatus::Open);
    assert_eq!(m.outcome, None);
    assert_eq!(m.total_pool, 0);
    assert_eq!(engine.next_market_id(), 1);
}

#[test]
fn market_ids_are_sequential() {
    let (mut engine, mut ledger, first) = setup(10_000_000);
    let second = engine.create_market(&mut ledger, ALICE, custom(), 1, 0).unwrap();
    let third = engine
        .create_market(
            &mut ledger,
            BOB,
            MarketType::PricePrediction { symbol: "BTC".to_string(), target_price: 50_000 },
            30,
            0,
        )
        .unwrap();
    assert_eq!((first, second, third), (0, 1, 2));
    assert_eq!(market(&engine, 2).creator, BOB);
    assert!(engine.market(3).is_none());
}

#[test]
fn place_bet_errors() {
    let (mut engine, mut ledger, id) = setup(10_000_000);
    assert_eq!(
        engine.place_bet(&mut ledger, 7, ALICE, Prediction::Up, 1_000_000, 10),
        Err(MarketError::MarketNotFound)
    );
    assert_eq!(
        engine.place_bet(&mut ledger, id, ALICE, Prediction::Up, 1_000_000, HOUR_MICROS),
        Err(MarketError::MarketNotOpen)
    );
    assert_eq!(
        engine.place_bet(&mut ledger, id, ALICE, Prediction::Up, 20_000_000, 10),
        Err(MarketError::InsufficientFunds)
    );
    assert_eq!(ledger.balance(ALICE), 10_000_000);
    assert!(engine.market_bets(id).is_empty());
}

#[test]
fn place_bet_pool_overflow() {
    let (mut engine, mut ledger, id) = setup(10_000_000);
    ledger.update_balance(ALICE, u128::MAX);
    ledger.update_balance(BOB, u128::MAX);
    engine.place_bet(&mut ledger, id, ALICE, Prediction::Up, u128::MAX, 1).unwrap();
    assert_eq!(
        engine.place_bet(&mut ledger, id, BOB, Prediction::Down, MIN_BET_AMOUNT, 1),
        Err(MarketError::Overflow)
    );
    assert_eq!(ledger.balance(BOB), u128::MAX);
}

#[test]
fn resolve_market_errors() {
    let (mut engine, _ledger, id) = setup(10_000_000);
    assert_eq!(
        engine.resolve_market(ALICE, id, Outcome::Up, HOUR_MICROS),
        Err(MarketError::Unauthorized)
    );
    assert_eq!(
        engine.resolve_market(RESOLVER, 5, Outcome::Up, HOUR_MICROS),
        Err(MarketError::MarketNotFound)
    );
    assert_eq!(
        engine.resolve_market(RESOLVER, id, Outcome::Up, HOUR_MICROS - 1),
        Err(MarketError::NotReadyToResolve)
    );
    assert_eq!(engine.resolve_market(RESOLVER, id, Outcome::Down, HOUR_MICROS), Ok(()));
    let m = market(&engine, id);
    assert_eq!(m.status, MarketStatus::Resolved);
    assert_eq!(m.outcome, Some(Outcome::Down));
    assert_eq!(m.resolved_at, Some(HOUR_MICROS));
    assert_eq!(
        engine.resolve_market(RESOLVER, id, Outcome::Up, HOUR_MICROS + 1),
        Err(MarketError::NotReadyToResolve)
    );
    assert_eq!(market(&engine, id).outcome, Some(Outcome::Down));
}

#[test]
fn cancelled_market_cannot_be_resolved() {
    let (mut engine, mut ledger, id) = setup(10_000_000);
    engine.cancel_market(&mut ledger, CREATOR, id).unwrap();
    assert_eq!(
        engine.resolve_market(RESOLVER, id, Outcome::Up, HOUR_MICROS),
        Err(MarketError::NotReadyToResolve)
    );
    assert_eq!(market(&engine, id).status, MarketStatus::Cancelled);
    assert_eq!(market(&engine, id).outcome, None);
}

#[test]
fn claim_errors() {
    let (mut engine, mut ledger, id) = setup(10_000_000);
    engine.place_bet(&mut ledger, id, ALICE, Prediction::Up, 1_000_000, 1).unwrap();
    assert_eq!(
        engine.claim_winnings(&mut ledger, 9, ALICE, 5),
        Err(MarketError::MarketNotFound)
    );
    assert_eq!(
        engine.claim_winnings(&mut ledger, id, ALICE, 5),
        Err(MarketError::MarketNotResolved)
    );
    engine.resolve_market(RESOLVER, id, Outcome::Up, HOUR_MICROS).unwrap();
    assert_eq!(
        engine.claim_winnings(&mut ledger, id, BOB, HOUR_MICROS),
        Err(MarketError::NoBets)
    );
    // The only bettor wins back its stake less the fee.
    assert_eq!(engine.claim_winnings(&mut ledger, id, ALICE, HOUR_MICROS), Ok(950_000));
}

#[test]
fn claim_credit_overflow_changes_nothing() {
    let (mut engine, mut ledger, id) = setup(10_000_000);
    engine.place_bet(&mut ledger, id, ALICE, Prediction::Up, 1_000_000, 1).unwrap();
    engine.resolve_market(RESOLVER, id, Outcome::Up, HOUR_MICROS).unwrap();
    ledger.update_balance(ALICE, u128::MAX);
    assert_eq!(
        engine.claim_winnings(&mut ledger, id, ALICE, HOUR_MICROS),
        Err(MarketError::Overflow)
    );
    assert!(!engine.has_claimed(id, ALICE));
    assert_eq!(ledger.balance(ALICE), u128::MAX);
}

#[test]
fn claims_sum_every_winning_bet() {
    let (mut engine, mut ledger, id) = setup(10_000_000);
    engine.place_bet(&mut ledger, id, ALICE, Prediction::Up, 300_000, 1).unwrap();
    engine.place_bet(&mut ledger, id, BOB, Prediction::Up, 700_000, 1).unwrap();
    engine.place_bet(&mut ledger, id, ALICE, Prediction::Up, 200_000, 2).unwrap();
    engine.place_bet(&mut ledger, id, ALICE, Prediction::Down, 500_000, 2).unwrap();
    engine.place_bet(&mut ledger, id, CAROL, Prediction::Down, 1_333_333, 2).unwrap();
    engine.resolve_market(RESOLVER, id, Outcome::Up, HOUR_MICROS).unwrap();
    // T = 3_033_333, after fee 2_881_666, W = 1_200_000.
    // Alice: floor(300_000 * 2_881_666 / 1_200_000) + floor(200_000 * 2_881_666 / 1_200_000)
    //      = 720_416 + 480_277
    assert_eq!(engine.claim_winnings(&mut ledger, id, ALICE, HOUR_MICROS), Ok(1_200_693));
    // Bob: floor(700_000 * 2_881_666 / 1_200_000) = 1_680_971
    assert_eq!(engine.claim_winnings(&mut ledger, id, BOB, HOUR_MICROS), Ok(1_680_971));
    assert_eq!(
        engine.claim_winnings(&mut ledger, id, CAROL, HOUR_MICROS),
        Err(MarketError::NoWinnings)
    );
    assert_eq!(engine.payouts.len(), 2);
    assert_eq!(engine.payouts[1].winner, BOB);
}

#[test]
fn commands_through_execute_operation() {
    let mut ledger = TokenState::new(0, 0, 0);
    ledger.update_balance(CREATOR, 5_000_000);
    ledger.update_balance(ALICE, 5_000_000);
    let mut engine = MarketState::new(RESOLVER);
    let created = engine.execute_operation(
        &mut ledger,
        CREATOR,
        MarketOperation::CreateMarket { market_type: custom(), duration_minutes: 60 },
        0,
    );
    assert_eq!(created, Ok(MarketResponse::MarketId(0)));
    let bet = engine.execute_operation(
        &mut ledger,
        ALICE,
        MarketOperation::PlaceBet { market_id: 0, prediction: Prediction::Up, amount: 1_000_000 },
        1,
    );
    assert_eq!(bet, Ok(MarketResponse::Done));
    let resolved = engine.execute_operation(
        &mut ledger,
        RESOLVER,
        MarketOperation::ResolveMarket { market_id: 0, outcome: Outcome::Up },
        HOUR_MICROS,
    );
    assert_eq!(resolved, Ok(MarketResponse::Done));
    let paid = engine.execute_operation(
        &mut ledger,
        ALICE,
        MarketOperation::ClaimWinnings { market_id: 0 },
        HOUR_MICROS,
    );
    assert_eq!(paid, Ok(MarketResponse::Payout(950_000)));
    let cancel = engine.execute_operation(
        &mut ledger,
        CREATOR,
        MarketOperation::CancelMarket { market_id: 0 },
        HOUR_MICROS,
    );
    assert_eq!(cancel, Err(MarketError::InvalidTransition));
    assert_eq!(ledger.balance(ALICE), 4_000_000 + 950_000);
}

#[test]
fn bets_by_account() {
    let (mut engine, mut ledger, id) = setup(10_000_000);
    engine.place_bet(&mut ledger, id, ALICE, Prediction::Up, 100_000, 1).unwrap();
    engine.place_bet(&mut ledger, id, BOB, Prediction::Down, 200_000, 2).unwrap();
    engine.place_bet(&mut ledger, id, ALICE, Prediction::Down, 300_000, 3).unwrap();
    let alice = engine.account_bets(id, ALICE);
    assert_eq!(alice.len(), 2);
    assert_eq!((alice[0].amount, alice[1].amount), (100_000, 300_000));
    assert_eq!(engine.account_bets(id, BOB).len(), 1);
    assert!(engine.account_bets(id, CAROL).is_empty());
    assert!(engine.account_bets(5, ALICE).is_empty());
    assert!(engine.market_bets(5).is_empty());
}
