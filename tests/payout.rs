use prediction_market::abi::{Market, MarketStatus, MarketType, Outcome, Prediction};
use prediction_market::arith::mul_div_floor;

fn resolved(total: u128, up: u128, down: u128, outcome: Option<Outcome>) -> Market {
    Market {
        id: 0,
        creator: 1,
        market_type: MarketType::BinaryEvent { question: "Q".to_string() },
        duration_micros: 60_000_000,
        created_at: 0,
        closes_at: 60_000_000,
        status: if outcome.is_some() { MarketStatus::Resolved } else { MarketStatus::Open },
        total_pool: total,
        up_pool: up,
        down_pool: down,
        outcome,
        resolved_at: outcome.map(|_| 60_000_000),
    }
}

#[test]
fn payout_formula_example() {
    let m = resolved(4_000_000, 1_000_000, 3_000_000, Some(Outcome::Up));
    assert_eq!(m.calculate_payout(1_000_000), 3_800_000);
}

#[test]
fn payout_truncates_twice_in_order() {
    // T = 41, after fee floor(41 * 95 / 100) = 38, W = 20:
    // floor(19 * 38 / 20) = 36, where one division, floor(19 * 41 * 95 / 2000),
    // would give 37.
    let m = resolved(41, 20, 21, Some(Outcome::Up));
    assert_eq!(m.calculate_payout(19), 36);
    // T = 19, after fee 18: floor(5 * 18 / 6) = 15, where taking the fee last,
    // floor(floor(5 * 19 / 6) * 95 / 100), would give 14.
    let o = resolved(19, 6, 13, Some(Outcome::Up));
    assert_eq!(o.calculate_payout(5), 15);
    // T = 101, after fee 95, W = 3.
    let n = resolved(101, 3, 98, Some(Outcome::Up));
    assert_eq!(n.calculate_payout(1), 31);
    assert_eq!(n.calculate_payout(2), 63);
}

#[test]
fn payout_nothing_without_outcome_or_pool() {
    assert_eq!(resolved(4_000_000, 1_000_000, 3_000_000, None).calculate_payout(1_000_000), 0);
    assert_eq!(resolved(0, 0, 0, Some(Outcome::Up)).calculate_payout(1_000_000), 0);
    assert_eq!(resolved(3_000_000, 0, 3_000_000, Some(Outcome::Up)).calculate_payout(1_000_000), 0);
}

#[test]
fn payout_down_side_uses_down_pool() {
    let m = resolved(4_000_000, 1_000_000, 3_000_000, Some(Outcome::Down));
    // floor(1_500_000 * 3_800_000 / 3_000_000)
    assert_eq!(m.calculate_payout(1_500_000), 1_900_000);
}

#[test]
fn payout_exact_beyond_128_bit_products() {
    let t: u128 = 1_000_000_000_000_000_000_000_000_000_000; // 10^30
    let w: u128 = 400_000_000_000_000_000_000_000_000_000; // 4 * 10^29
    let a: u128 = 300_000_000_000_000_000_000_000_000_000; // 3 * 10^29
    let m = resolved(t, w, t - w, Some(Outcome::Up));
    // 3e29 * 9.5e29 / 4e29 = 7.125e29 exactly.
    assert_eq!(m.calculate_payout(a), 712_500_000_000_000_000_000_000_000_000);
}

#[test]
fn payout_caps_at_largest_amount() {
    let m = resolved(u128::MAX, 1, u128::MAX - 1, Some(Outcome::Up));
    assert_eq!(m.calculate_payout(u128::MAX), u128::MAX);
    // A stake above the winning pool that still fits: 3 * floor(100 * 95 / 100) / 2.
    let n = resolved(100, 2, 98, Some(Outcome::Up));
    assert_eq!(n.calculate_payout(3), 142);
}

#[test]
fn mul_div_floor_values() {
    assert_eq!(mul_div_floor(0, 123, 7), 0);
    assert_eq!(mul_div_floor(7, 123, 7), 123);
    assert_eq!(mul_div_floor(3, 10, 4), 7);
    assert_eq!(mul_div_floor(u128::MAX, u128::MAX, u128::MAX), u128::MAX);
    assert_eq!(mul_div_floor(u128::MAX - 1, u128::MAX, u128::MAX), u128::MAX - 1);
    assert_eq!(mul_div_floor(1 << 127, 6, 1u128 << 127 | 1), 5);
}

#[test]
fn market_windows() {
    let mut m = resolved(0, 0, 0, None);
    assert!(m.is_open(59_999_999));
    assert!(!m.is_open(60_000_000));
    assert!(!m.can_resolve(59_999_999));
    assert!(m.can_resolve(60_000_000));
    m.status = MarketStatus::Cancelled;
    assert!(!m.is_open(0));
    assert!(!m.can_resolve(60_000_000));
}

#[test]
fn prediction_and_outcome_conversions() {
    assert_eq!(Prediction::Up.opposite(), Prediction::Down);
    assert_eq!(Prediction::Down.opposite(), Prediction::Up);
    assert_eq!(Prediction::from(Outcome::Up), Prediction::Up);
    assert_eq!(Prediction::from(Outcome::Down), Prediction::Down);
    assert_eq!(Outcome::from(Prediction::Up), Outcome::Up);
    assert_eq!(Outcome::from(Prediction::Down), Outcome::Down);
}
