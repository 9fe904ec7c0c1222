//! Checks the library's fixed-point arithmetic and exchange-rate
//! computation against the reference implementations in the external
//! lending crates, on shared inputs.

use port_adaptor::decimal::{CollateralExchangeRate, Decimal};
use port_adaptor::reserve::exchange_rate;
use port_adaptor::WAD;
use port_variable_rate_lending_instructions::state::{
    CollateralExchangeRate as PortExchangeRate, ReserveCollateral, INITIAL_COLLATERAL_RATE,
};
use solana_maths::{Decimal as RefDecimal, Rate as RefRate, TryAdd, TryDiv, TrySub, U128};

const W: u128 = WAD as u128;

fn reserve_buf(avail: u64, borrowed: u128, supply: u64) -> Vec<u8> {
    let mut b = vec![0u8; 600];
    b[175..183].copy_from_slice(&avail.to_le_bytes());
    b[183..199].copy_from_slice(&borrowed.to_le_bytes());
    b[263..271].copy_from_slice(&supply.to_le_bytes());
    b
}

#[test]
fn scale_constants_agree() {
    assert_eq!(solana_maths::WAD, WAD);
    assert_eq!(INITIAL_COLLATERAL_RATE, WAD);
}

#[test]
fn addition_matches_reference() {
    for (a, b) in [(0u128, 0u128), (W, 2 * W), (123, 456), (7 * W + 5, 9 * W + 11)] {
        let ours = Decimal::from_scaled_val(a)
            .try_add(Decimal::from_scaled_val(b))
            .unwrap();
        let reference = RefDecimal::from_scaled_val(a)
            .try_add(RefDecimal::from_scaled_val(b))
            .unwrap();
        assert_eq!(ours.scaled, reference.to_scaled_val().unwrap());
    }
}

#[test]
fn subtraction_matches_reference() {
    for (a, b) in [(5 * W, 2 * W), (W, W), (u128::MAX, 17)] {
        let ours = Decimal::from_scaled_val(a)
            .try_sub(Decimal::from_scaled_val(b))
            .unwrap();
        let reference = RefDecimal::from_scaled_val(a)
            .try_sub(RefDecimal::from_scaled_val(b))
            .unwrap();
        assert_eq!(ours.scaled, reference.to_scaled_val().unwrap());
    }
    assert!(Decimal::from_scaled_val(1)
        .try_sub(Decimal::from_scaled_val(2))
        .is_err());
    assert!(RefDecimal::from_scaled_val(1)
        .try_sub(RefDecimal::from_scaled_val(2))
        .is_err());
}

#[test]
fn division_matches_reference() {
    for (a, b) in [
        (3 * W, 2 * W),
        (W, 3 * W),
        (123_456_789, 987_654_321),
        (1_000_000 * W, 7 * W),
        (u64::MAX as u128 * W, 13 * W + 7),
    ] {
        let ours = Decimal::from_scaled_val(a)
            .try_div(Decimal::from_scaled_val(b))
            .unwrap();
        let reference = RefDecimal::from_scaled_val(a)
            .try_div(RefDecimal::from_scaled_val(b))
            .unwrap();
        assert_eq!(ours.scaled, reference.to_scaled_val().unwrap());
    }
}

#[test]
fn ceiling_matches_reference() {
    for v in [0u128, 1, W - 1, W, W + 1, 50 * W, 50 * W + 1, 123 * W + W / 2] {
        let ours = Decimal::from_scaled_val(v).try_ceil_u64().unwrap();
        let reference = RefDecimal::from_scaled_val(v).try_ceil_u64().unwrap();
        assert_eq!(ours, reference);
    }
}

#[test]
fn collateral_conversion_matches_reference() {
    for (c, r) in [
        (100u64, W),
        (5, 2 * W),
        (1_000_000, W / 4),
        (u64::MAX, 3 * W),
        (7, W + 1),
    ] {
        let ours = CollateralExchangeRate { scaled: r }
            .collateral_to_liquidity(c)
            .unwrap();
        let reference = PortExchangeRate(RefRate(U128::from(r)))
            .collateral_to_liquidity(c)
            .unwrap();
        assert_eq!(ours, reference);
    }
}

#[test]
fn exchange_rate_matches_reference() {
    for (avail, borrowed, supply) in [
        (1_000_000u64, 0u128, 2_000_000u64),
        (1_000_000, 0, 1_000_000),
        (0, 55 * W + 7, 123_456),
        (10, 3, 7),
        (123_456, 789 * W, 0),
        (0, 0, 42),
    ] {
        let buf = reserve_buf(avail, borrowed, supply);
        let ours = exchange_rate(&buf).unwrap();

        let collateral = ReserveCollateral {
            mint_total_supply: supply,
            ..ReserveCollateral::default()
        };
        let total_liquidity = RefDecimal::from_scaled_val(borrowed)
            .try_add(RefDecimal::from(avail))
            .unwrap();
        let reference = collateral.exchange_rate(total_liquidity).unwrap();
        assert_eq!(ours.scaled, reference.0 .0.as_u128());
    }
}
