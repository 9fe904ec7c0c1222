use port_adaptor::decimal::CollateralExchangeRate;
use port_adaptor::error::PortAdaptorError;
use port_adaptor::obligation::{
    is_obligation_stale, obligation_borrow_amount_wads, obligation_borrows_count,
    obligation_deposit_amount, obligation_deposits_count, obligation_liquidity, PortObligation,
};
use port_adaptor::WAD;

const W: u128 = WAD as u128;

fn obligation_buf(deposits: &[([u8; 32], u64)], borrows: &[([u8; 32], u128)]) -> Vec<u8> {
    let dc = deposits.len();
    let bc = borrows.len();
    let mut b = vec![0u8; 140 + dc * 56 + bc * 80];
    b[138] = dc as u8;
    b[139] = bc as u8;
    for (i, (id, amount)) in deposits.iter().enumerate() {
        let s = 140 + i * 56;
        b[s..s + 32].copy_from_slice(id);
        b[s + 32..s + 40].copy_from_slice(&amount.to_le_bytes());
    }
    for (i, (id, wads)) in borrows.iter().enumerate() {
        let s = 140 + dc * 56 + i * 80;
        b[s..s + 32].copy_from_slice(id);
        b[s + 48..s + 64].copy_from_slice(&wads.to_le_bytes());
    }
    b
}

fn id(tag: u8) -> [u8; 32] {
    [tag; 32]
}

#[test]
fn counts_read_back() {
    let b = obligation_buf(&[(id(1), 5), (id(2), 6)], &[(id(3), 7)]);
    assert_eq!(obligation_deposits_count(&b), Ok(2));
    assert_eq!(obligation_borrows_count(&b), Ok(1));
}

#[test]
fn counts_reject_short_buffer() {
    let b: Vec<u8> = Vec::new();
    assert_eq!(
        obligation_deposits_count(&b),
        Err(PortAdaptorError::BufferTooShort)
    );
    assert_eq!(
        obligation_borrows_count(&b),
        Err(PortAdaptorError::BufferTooShort)
    );
    assert_eq!(
        is_obligation_stale(&b),
        Err(PortAdaptorError::BufferTooShort)
    );
}

#[test]
fn deposit_amount_bounds_empty() {
    let b = obligation_buf(&[], &[]);
    assert_eq!(
        obligation_deposit_amount(&b, 0),
        Err(PortAdaptorError::CollateralIndexOutOfBound)
    );
    assert_eq!(
        obligation_borrow_amount_wads(&b, 0),
        Err(PortAdaptorError::BorrowIndexOutOfBound)
    );
}

#[test]
fn deposit_amount_bounds_single() {
    let b = obligation_buf(&[(id(1), 42)], &[(id(2), 9 * W)]);
    assert_eq!(obligation_deposit_amount(&b, 0), Ok(42));
    assert_eq!(
        obligation_deposit_amount(&b, 1),
        Err(PortAdaptorError::CollateralIndexOutOfBound)
    );
    assert_eq!(obligation_borrow_amount_wads(&b, 0).unwrap().scaled, 9 * W);
    assert_eq!(
        obligation_borrow_amount_wads(&b, 1),
        Err(PortAdaptorError::BorrowIndexOutOfBound)
    );
}

#[test]
fn deposit_amount_bounds_max_entries() {
    let deposits: Vec<([u8; 32], u64)> = (0..255).map(|i| (id(i as u8), i as u64)).collect();
    let b = obligation_buf(&deposits, &[]);
    assert_eq!(obligation_deposit_amount(&b, 254), Ok(254));
    assert_eq!(
        obligation_deposit_amount(&b, 255),
        Err(PortAdaptorError::CollateralIndexOutOfBound)
    );
    let borrows: Vec<([u8; 32], u128)> = (0..255).map(|i| (id(i as u8), i as u128)).collect();
    let b = obligation_buf(&[], &borrows);
    assert_eq!(obligation_borrow_amount_wads(&b, 254).unwrap().scaled, 254);
    assert_eq!(
        obligation_borrow_amount_wads(&b, 255),
        Err(PortAdaptorError::BorrowIndexOutOfBound)
    );
}

#[test]
fn entry_read_rejects_truncated_buffer() {
    let mut b = obligation_buf(&[(id(1), 42)], &[]);
    // declare one deposit entry but cut its bytes off
    b.truncate(150);
    assert_eq!(
        obligation_deposit_amount(&b, 0),
        Err(PortAdaptorError::BufferTooShort)
    );
}

#[test]
fn obligation_staleness_flag() {
    let mut b = obligation_buf(&[], &[]);
    assert_eq!(is_obligation_stale(&b), Ok(false));
    b[9] = 1;
    assert_eq!(is_obligation_stale(&b), Ok(true));
}

#[test]
fn net_liquidity_of_pair() {
    // deposit 100 at rate 1.0 -> 100.0; borrow 50.4 -> net 49.6
    let b = obligation_buf(&[(id(1), 100)], &[(id(1), 50_400_000_000_000_000_000)]);
    let rate = CollateralExchangeRate { scaled: W };
    let net = obligation_liquidity(&b, &rate, 0, 0).unwrap();
    assert_eq!(net.scaled, 49_600_000_000_000_000_000);
}

#[test]
fn net_liquidity_insolvent_pair() {
    let b = obligation_buf(&[(id(1), 10)], &[(id(1), 11 * W)]);
    let rate = CollateralExchangeRate { scaled: W };
    assert_eq!(
        obligation_liquidity(&b, &rate, 0, 0),
        Err(PortAdaptorError::Insolvency)
    );
}

#[test]
fn net_liquidity_no_deposits_nonzero_borrow() {
    // zero collateral against debt of 5 is insolvent under any rate
    let b = obligation_buf(&[], &[(id(1), 5 * W)]);
    let rate = CollateralExchangeRate { scaled: 3 * W };
    assert_eq!(
        obligation_liquidity(&b, &rate, 0, 0),
        Err(PortAdaptorError::Insolvency)
    );
}

#[test]
fn net_liquidity_bad_index_reported() {
    let b = obligation_buf(&[(id(1), 10)], &[(id(1), W)]);
    let rate = CollateralExchangeRate { scaled: W };
    assert_eq!(
        obligation_liquidity(&b, &rate, 1, 0),
        Err(PortAdaptorError::CollateralIndexOutOfBound)
    );
    assert_eq!(
        obligation_liquidity(&b, &rate, 0, 1),
        Err(PortAdaptorError::BorrowIndexOutOfBound)
    );
}

#[test]
fn unpack_projects_entries() {
    let b = obligation_buf(
        &[(id(1), 11), (id(2), 22)],
        &[(id(3), 3 * W), (id(4), 4 * W)],
    );
    let ob = PortObligation::unpack(&b).unwrap();
    assert_eq!(ob.deposits.len(), 2);
    assert_eq!(ob.borrows.len(), 2);
    assert_eq!(ob.deposits[0].deposit_reserve, id(1).to_vec());
    assert_eq!(ob.deposits[1].deposited_amount, 22);
    assert_eq!(ob.borrows[0].borrow_reserve, id(3).to_vec());
    assert_eq!(ob.borrows[1].borrowed_amount_wads.scaled, 4 * W);
}

#[test]
fn unpack_rejects_short_buffer() {
    let mut b = obligation_buf(&[(id(1), 11)], &[]);
    b.truncate(160);
    assert_eq!(
        PortObligation::unpack(&b).unwrap_err(),
        PortAdaptorError::BufferTooShort
    );
    let empty: Vec<u8> = Vec::new();
    assert_eq!(
        PortObligation::unpack(&empty).unwrap_err(),
        PortAdaptorError::BufferTooShort
    );
}

#[test]
fn calculate_liquidity_solvent_position() {
    // deposit worth 100 liquidity, borrow 50.4 (ceiling 51) -> net 49
    let b = obligation_buf(&[(id(1), 100)], &[(id(1), 50_400_000_000_000_000_000)]);
    let ob = PortObligation::unpack(&b).unwrap();
    let rate = CollateralExchangeRate { scaled: W };
    assert_eq!(ob.calculate_liquidity(&id(1), rate), Ok(49));
}

#[test]
fn calculate_liquidity_no_collateral_is_insolvent() {
    // zero deposit entries, one borrow of 5: insolvent against any rate
    let b = obligation_buf(&[], &[(id(1), 5 * W)]);
    let ob = PortObligation::unpack(&b).unwrap();
    for rate_scaled in [1, W, 3 * W, 1000 * W] {
        let rate = CollateralExchangeRate {
            scaled: rate_scaled,
        };
        assert_eq!(
            ob.calculate_liquidity(&id(1), rate),
            Err(PortAdaptorError::Insolvency)
        );
    }
}

#[test]
fn calculate_liquidity_unmatched_reserve_defaults_to_zero() {
    let b = obligation_buf(&[(id(1), 100)], &[(id(1), 5 * W)]);
    let ob = PortObligation::unpack(&b).unwrap();
    let rate = CollateralExchangeRate { scaled: W };
    // no entry matches this reserve: zero collateral, zero debt
    assert_eq!(ob.calculate_liquidity(&id(9), rate), Ok(0));
}

#[test]
fn calculate_liquidity_first_match_wins() {
    let b = obligation_buf(
        &[(id(7), 30), (id(7), 1000)],
        &[(id(7), 10 * W), (id(7), 999 * W)],
    );
    let ob = PortObligation::unpack(&b).unwrap();
    let rate = CollateralExchangeRate { scaled: W };
    // first matching deposit (30) and first matching borrow (10)
    assert_eq!(ob.calculate_liquidity(&id(7), rate), Ok(20));
}

#[test]
fn calculate_liquidity_monotone_in_borrow() {
    let rate = CollateralExchangeRate { scaled: W };
    let mut previous = u64::MAX;
    for borrow_units in [10u128, 20, 30, 90] {
        let b = obligation_buf(&[(id(1), 100)], &[(id(1), borrow_units * W)]);
        let ob = PortObligation::unpack(&b).unwrap();
        let net = ob.calculate_liquidity(&id(1), rate).unwrap();
        assert!(net <= previous);
        previous = net;
    }
}

#[test]
fn calculate_liquidity_monotone_in_deposit() {
    let rate = CollateralExchangeRate { scaled: W };
    let mut previous = 0u64;
    for deposit in [60u64, 70, 80, 1000] {
        let b = obligation_buf(&[(id(1), deposit)], &[(id(1), 50 * W)]);
        let ob = PortObligation::unpack(&b).unwrap();
        let net = ob.calculate_liquidity(&id(1), rate).unwrap();
        assert!(net >= previous);
        previous = net;
    }
}

#[test]
fn calculate_liquidity_insolvency_boundary() {
    let rate = CollateralExchangeRate { scaled: W };
    // ceiling(50.4) = 51 > 50 -> insolvent
    let b = obligation_buf(&[(id(1), 50)], &[(id(1), 50_400_000_000_000_000_000)]);
    let ob = PortObligation::unpack(&b).unwrap();
    assert_eq!(
        ob.calculate_liquidity(&id(1), rate),
        Err(PortAdaptorError::Insolvency)
    );
    // ceiling(50.0) = 50 <= 50 -> exactly solvent with nothing to spare
    let b = obligation_buf(&[(id(1), 50)], &[(id(1), 50 * W)]);
    let ob = PortObligation::unpack(&b).unwrap();
    assert_eq!(ob.calculate_liquidity(&id(1), rate), Ok(0));
}

#[test]
fn calculate_liquidity_overflow_reported() {
    // zero rate cannot convert collateral
    let b = obligation_buf(&[(id(1), 100)], &[]);
    let ob = PortObligation::unpack(&b).unwrap();
    let zero_rate = CollateralExchangeRate { scaled: 0 };
    assert_eq!(
        ob.calculate_liquidity(&id(1), zero_rate),
        Err(PortAdaptorError::MathOverflow)
    );
    // a tiny rate blows the converted value past 64 bits
    let tiny_rate = CollateralExchangeRate { scaled: 1 };
    let b = obligation_buf(&[(id(1), u64::MAX)], &[]);
    let ob = PortObligation::unpack(&b).unwrap();
    assert_eq!(
        ob.calculate_liquidity(&id(1), tiny_rate),
        Err(PortAdaptorError::MathOverflow)
    );
    // a debt whose ceiling exceeds 64 bits is likewise reported
    let rate = CollateralExchangeRate { scaled: W };
    let b = obligation_buf(&[(id(1), 100)], &[(id(1), u128::MAX)]);
    let ob = PortObligation::unpack(&b).unwrap();
    assert_eq!(
        ob.calculate_liquidity(&id(1), rate),
        Err(PortAdaptorError::MathOverflow)
    );
}
