//! Derived figures of one reserve (liquidity pool) account buffer: field
//! extraction at the wire format's fixed offsets, aggregate liquidity, and
//! the collateral-to-liquidity exchange rate.

use vstd::prelude::*;

use crate::bytes::{le_bytes_val, read_id32, read_u128_le, read_u64_le, read_u8};
use crate::decimal::{CollateralExchangeRate, Decimal, Rate};
use crate::error::PortAdaptorError;
use crate::{STALE_FLAG_OFF, WAD};

verus! {

/// Byte offset of the reserve's 32-byte liquidity mint identifier.
pub const RESERVE_LIQUIDITY_MINT_OFF: usize = 42;

/// Byte offset of the reserve's 32-byte oracle price identifier.
pub const RESERVE_ORACLE_OFF: usize = 143;

/// Byte offset of the reserve's 8-byte available liquidity amount.
pub const RESERVE_AVAILABLE_LIQUIDITY_OFF: usize = 175;

/// Byte offset of the reserve's 16-byte fixed-point borrowed amount.
pub const RESERVE_BORROWED_AMOUNT_OFF: usize = 183;

/// Byte offset of the reserve's 16-byte fixed-point market price.
pub const RESERVE_MARKET_PRICE_OFF: usize = 215;

/// Byte offset of the reserve's 32-byte collateral mint identifier.
pub const RESERVE_COLLATERAL_MINT_OFF: usize = 231;

/// Byte offset of the reserve's 8-byte collateral mint total supply.
pub const RESERVE_MINT_TOTAL_OFF: usize = 263;

/// Byte offset of the reserve's loan-to-value ratio byte.
pub const RESERVE_LTV_OFF: usize = 304;

/// Byte offset of the reserve's 8-byte fixed-point borrow fee rate.
pub const RESERVE_BORROW_FEE_OFF: usize = 310;

/// The reserve's available liquidity, raw units.
pub open spec fn spec_reserve_available_liquidity(data: Seq<u8>) -> nat {
    le_bytes_val(data.subrange(175, 183))
}

/// The reserve's borrowed amount, scaled fixed-point units.
pub open spec fn spec_reserve_borrowed_amount(data: Seq<u8>) -> nat {
    le_bytes_val(data.subrange(183, 199))
}

/// The reserve's collateral mint total supply, raw units.
pub open spec fn spec_reserve_mint_total(data: Seq<u8>) -> nat {
    le_bytes_val(data.subrange(263, 271))
}

/// The reserve's total liquidity, scaled: borrowed amount plus available
/// liquidity, exactly.
pub open spec fn spec_reserve_total_liquidity(data: Seq<u8>) -> nat {
    spec_reserve_borrowed_amount(data) + spec_reserve_available_liquidity(data) * (WAD as nat)
}

/// The scaled collateral exchange rate of a reserve with collateral-mint
/// supply `m` and total scaled liquidity `liq`: the protocol-fixed initial
/// rate when either is zero, otherwise the supply divided by the liquidity.
pub open spec fn exchange_rate_scaled(m: nat, liq: nat) -> nat {
    if m == 0 || liq == 0 {
        WAD as nat
    } else {
        (m * (WAD as nat) * (WAD as nat)) / liq
    }
}

/// The reserve's loan-to-value ratio, in percent.
pub fn reserve_ltv(data: &[u8]) -> (r: Result<u8, PortAdaptorError>)
    ensures
        data@.len() >= 305 ==> r == Ok::<u8, PortAdaptorError>(data@[304]),
        data@.len() < 305 ==> r == Err::<u8, PortAdaptorError>(PortAdaptorError::BufferTooShort),
{
    if data.len() < 305 {
        return Err(PortAdaptorError::BufferTooShort);
    }
    Ok(read_u8(data, RESERVE_LTV_OFF))
}

/// The reserve's available liquidity, raw units.
pub fn reserve_available_liquidity(data: &[u8]) -> (r: Result<u64, PortAdaptorError>)
    ensures
        data@.len() >= 183 ==> r is Ok && r->Ok_0 as nat == spec_reserve_available_liquidity(
            data@,
        ),
        data@.len() < 183 ==> r == Err::<u64, PortAdaptorError>(PortAdaptorError::BufferTooShort),
{
    if data.len() < 183 {
        return Err(PortAdaptorError::BufferTooShort);
    }
    Ok(read_u64_le(data, RESERVE_AVAILABLE_LIQUIDITY_OFF))
}

/// The reserve's borrowed amount as a fixed-point decimal.
pub fn reserve_borrowed_amount(data: &[u8]) -> (r: Result<Decimal, PortAdaptorError>)
    ensures
        data@.len() >= 199 ==> r is Ok && r->Ok_0.scaled as nat == spec_reserve_borrowed_amount(
            data@,
        ),
        data@.len() < 199 ==> r == Err::<Decimal, PortAdaptorError>(
            PortAdaptorError::BufferTooShort,
        ),
{
    if data.len() < 199 {
        return Err(PortAdaptorError::BufferTooShort);
    }
    Ok(Decimal::from_scaled_val(read_u128_le(data, RESERVE_BORROWED_AMOUNT_OFF)))
}

/// The reserve's market price as a fixed-point decimal.
pub fn reserve_market_price(data: &[u8]) -> (r: Result<Decimal, PortAdaptorError>)
    ensures
        data@.len() >= 231 ==> r is Ok && r->Ok_0.scaled as nat == le_bytes_val(
            data@.subrange(215, 231),
        ),
        data@.len() < 231 ==> r == Err::<Decimal, PortAdaptorError>(
            PortAdaptorError::BufferTooShort,
        ),
{
    if data.len() < 231 {
        return Err(PortAdaptorError::BufferTooShort);
    }
    Ok(Decimal::from_scaled_val(read_u128_le(data, RESERVE_MARKET_PRICE_OFF)))
}

/// The reserve's 32-byte oracle price identifier.
pub fn reserve_oracle_pubkey(data: &[u8]) -> (r: Result<Vec<u8>, PortAdaptorError>)
    ensures
        data@.len() >= 175 ==> r is Ok && r->Ok_0@ == data@.subrange(143, 175),
        data@.len() < 175 ==> r == Err::<Vec<u8>, PortAdaptorError>(
            PortAdaptorError::BufferTooShort,
        ),
{
    if data.len() < 175 {
        return Err(PortAdaptorError::BufferTooShort);
    }
    Ok(read_id32(data, RESERVE_ORACLE_OFF))
}

/// The reserve's 32-byte liquidity mint identifier.
pub fn reserve_liquidity_mint_pubkey(data: &[u8]) -> (r: Result<Vec<u8>, PortAdaptorError>)
    ensures
        data@.len() >= 74 ==> r is Ok && r->Ok_0@ == data@.subrange(42, 74),
        data@.len() < 74 ==> r == Err::<Vec<u8>, PortAdaptorError>(
            PortAdaptorError::BufferTooShort,
        ),
{
    if data.len() < 74 {
        return Err(PortAdaptorError::BufferTooShort);
    }
    Ok(read_id32(data, RESERVE_LIQUIDITY_MINT_OFF))
}

/// The reserve's 32-byte collateral mint identifier.
pub fn reserve_lp_mint_pubkey(data: &[u8]) -> (r: Result<Vec<u8>, PortAdaptorError>)
    ensures
        data@.len() >= 263 ==> r is Ok && r->Ok_0@ == data@.subrange(231, 263),
        data@.len() < 263 ==> r == Err::<Vec<u8>, PortAdaptorError>(
            PortAdaptorError::BufferTooShort,
        ),
{
    if data.len() < 263 {
        return Err(PortAdaptorError::BufferTooShort);
    }
    Ok(read_id32(data, RESERVE_COLLATERAL_MINT_OFF))
}

/// The reserve's collateral mint total supply, raw units.
pub fn reserve_mint_total(data: &[u8]) -> (r: Result<u64, PortAdaptorError>)
    ensures
        data@.len() >= 271 ==> r is Ok && r->Ok_0 as nat == spec_reserve_mint_total(data@),
        data@.len() < 271 ==> r == Err::<u64, PortAdaptorError>(PortAdaptorError::BufferTooShort),
{
    if data.len() < 271 {
        return Err(PortAdaptorError::BufferTooShort);
    }
    Ok(read_u64_le(data, RESERVE_MINT_TOTAL_OFF))
}

/// The reserve's borrow fee as a fixed-point rate.
pub fn reserve_borrow_fee(data: &[u8]) -> (r: Result<Rate, PortAdaptorError>)
    ensures
        data@.len() >= 318 ==> r is Ok && r->Ok_0.scaled as nat == le_bytes_val(
            data@.subrange(310, 318),
        ),
        data@.len() < 318 ==> r == Err::<Rate, PortAdaptorError>(PortAdaptorError::BufferTooShort),
{
    if data.len() < 318 {
        return Err(PortAdaptorError::BufferTooShort);
    }
    Ok(Rate::from_scaled_val(read_u64_le(data, RESERVE_BORROW_FEE_OFF)))
}

/// Whether the reserve's cached figures are stale and must be refreshed
/// before any derived figure is trusted. Advisory: this library only
/// reports the flag.
pub fn is_reserve_stale(data: &[u8]) -> (r: Result<bool, PortAdaptorError>)
    ensures
        data@.len() >= 10 ==> r == Ok::<bool, PortAdaptorError>(data@[9] == 1),
        data@.len() < 10 ==> r == Err::<bool, PortAdaptorError>(PortAdaptorError::BufferTooShort),
{
    if data.len() < 10 {
        return Err(PortAdaptorError::BufferTooShort);
    }
    Ok(read_u8(data, STALE_FLAG_OFF) == 1)
}

/// The reserve's total liquidity: borrowed amount plus available liquidity,
/// exactly, with no rounding loss. Fails only when the sum leaves the
/// decimal's 128-bit range.
pub fn reserve_total_liquidity(data: &[u8]) -> (r: Result<Decimal, PortAdaptorError>)
    ensures
        data@.len() < 199 ==> r == Err::<Decimal, PortAdaptorError>(
            PortAdaptorError::BufferTooShort,
        ),
        data@.len() >= 199 && spec_reserve_total_liquidity(data@) <= u128::MAX ==> r is Ok
            && r->Ok_0.scaled as nat == spec_reserve_total_liquidity(data@),
        data@.len() >= 199 && spec_reserve_total_liquidity(data@) > u128::MAX ==> r == Err::<
            Decimal,
            PortAdaptorError,
        >(PortAdaptorError::MathOverflow),
{
    let available_liquidity = match reserve_available_liquidity(data) {
        Ok(v) => v,
        Err(e) => {
            return Err(e);
        },
    };
    let borrowed_amount = match reserve_borrowed_amount(data) {
        Ok(v) => v,
        Err(e) => {
            return Err(e);
        },
    };
    borrowed_amount.try_add(Decimal::from_u64(available_liquidity))
}

/// The reserve's collateral exchange rate. A reserve with zero mint supply
/// or zero total liquidity gets the protocol-fixed initial rate (one, as a
/// scaled value `WAD`) instead of an undefined quotient; otherwise the rate
/// is the mint supply divided by the total liquidity.
pub fn exchange_rate(data: &[u8]) -> (r: Result<CollateralExchangeRate, PortAdaptorError>)
    ensures
        data@.len() < 271 ==> r == Err::<CollateralExchangeRate, PortAdaptorError>(
            PortAdaptorError::BufferTooShort,
        ),
        data@.len() >= 271 && spec_reserve_mint_total(data@) == 0 ==> r == Ok::<
            CollateralExchangeRate,
            PortAdaptorError,
        >((CollateralExchangeRate { scaled: WAD as u128 })),
        data@.len() >= 271 && spec_reserve_mint_total(data@) != 0
            && spec_reserve_total_liquidity(data@) > u128::MAX ==> r == Err::<
            CollateralExchangeRate,
            PortAdaptorError,
        >(PortAdaptorError::MathOverflow),
        data@.len() >= 271 && spec_reserve_mint_total(data@) != 0
            && spec_reserve_total_liquidity(data@) <= u128::MAX && exchange_rate_scaled(
            spec_reserve_mint_total(data@),
            spec_reserve_total_liquidity(data@),
        ) <= u128::MAX ==> r is Ok && r->Ok_0.scaled as nat == exchange_rate_scaled(
            spec_reserve_mint_total(data@),
            spec_reserve_total_liquidity(data@),
        ),
        data@.len() >= 271 && spec_reserve_mint_total(data@) != 0
            && spec_reserve_total_liquidity(data@) <= u128::MAX && exchange_rate_scaled(
            spec_reserve_mint_total(data@),
            spec_reserve_total_liquidity(data@),
        ) > u128::MAX ==> r == Err::<CollateralExchangeRate, PortAdaptorError>(
            PortAdaptorError::MathOverflow,
        ),
{
    let mint_total_supply = match reserve_mint_total(data) {
        Ok(v) => v,
        Err(e) => {
            return Err(e);
        },
    };
    if mint_total_supply == 0 {
        return Ok(CollateralExchangeRate { scaled: WAD as u128 });
    }
    let total_liquidity = match reserve_total_liquidity(data) {
        Ok(v) => v,
        Err(e) => {
            return Err(e);
        },
    };
    if total_liquidity.scaled == 0 {
        return Ok(CollateralExchangeRate { scaled: WAD as u128 });
    }
    let supply_decimal = Decimal::from_u64(mint_total_supply);
    match supply_decimal.try_div(total_liquidity) {
        Ok(d) => {
            proof {
                let m = spec_reserve_mint_total(data@);
                let liq = spec_reserve_total_liquidity(data@);
                assert((m * (WAD as nat) * (WAD as nat)) as int == (m as int * WAD as int)
                    * WAD as int) by (nonlinear_arith);
            }
            Ok(CollateralExchangeRate { scaled: d.scaled })
        },
        Err(e) => {
            proof {
                let m = spec_reserve_mint_total(data@);
                let liq = spec_reserve_total_liquidity(data@);
                assert((m * (WAD as nat) * (WAD as nat)) as int == (m as int * WAD as int)
                    * WAD as int) by (nonlinear_arith);
            }
            Err(e)
        },
    }
}

} // verus!
