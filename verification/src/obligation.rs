//! Derived figures of one obligation (borrower position) account buffer:
//! entry counts, per-index deposit and borrow amounts, and the net
//! liquidity of a deposit/borrow pair under an exchange rate.

use vstd::prelude::*;

use crate::bytes::{le_bytes_val, read_u128_le, read_u64_le, read_u8};
use crate::decimal::{ceil_div_wad, collateral_to_liquidity_val, CollateralExchangeRate, Decimal};
use crate::error::PortAdaptorError;
use crate::{STALE_FLAG_OFF, WAD};

verus! {

/// Byte offset of the obligation's deposit entry count.
pub const OBLIGATION_DEPOSITS_COUNT_OFF: usize = 138;

/// Byte offset of the obligation's borrow entry count.
pub const OBLIGATION_BORROWS_COUNT_OFF: usize = 139;

/// Byte offset of the first packed entry; deposit entries come first, then
/// borrow entries.
pub const OBLIGATION_ENTRIES_OFF: usize = 140;

/// Stride of one packed deposit entry: a 32-byte reserve identifier, an
/// 8-byte deposited amount, and auxiliary fields.
pub const DEPOSIT_ENTRY_LEN: usize = 56;

/// Stride of one packed borrow entry: a 32-byte reserve identifier, a
/// 16-byte cumulative rate, a 16-byte borrowed amount, and auxiliary
/// fields.
pub const BORROW_ENTRY_LEN: usize = 80;

/// Length of a reserve identifier.
pub const PUBKEY_LEN: usize = 32;

/// The obligation's deposit entry count.
pub open spec fn spec_deposits_count(data: Seq<u8>) -> nat
    recommends
        data.len() >= 139,
{
    data[138] as nat
}

/// The obligation's borrow entry count.
pub open spec fn spec_borrows_count(data: Seq<u8>) -> nat
    recommends
        data.len() >= 140,
{
    data[139] as nat
}

/// The deposited amount of deposit entry `n`, raw units.
pub open spec fn spec_deposit_amount(data: Seq<u8>, n: nat) -> nat {
    le_bytes_val(data.subrange((140 + n * 56 + 32) as int, (140 + n * 56 + 40) as int))
}

/// The borrowed amount of borrow entry `n`, scaled fixed-point units, in an
/// obligation with `dc` deposit entries.
pub open spec fn spec_borrow_wads(data: Seq<u8>, dc: nat, n: nat) -> nat {
    le_bytes_val(
        data.subrange((140 + dc * 56 + n * 80 + 48) as int, (140 + dc * 56 + n * 80 + 64) as int),
    )
}

/// The obligation's deposit entry count.
pub fn obligation_deposits_count(data: &[u8]) -> (r: Result<u8, PortAdaptorError>)
    ensures
        data@.len() >= 139 ==> r is Ok && r->Ok_0 as nat == spec_deposits_count(data@),
        data@.len() < 139 ==> r == Err::<u8, PortAdaptorError>(PortAdaptorError::BufferTooShort),
{
    if data.len() < 139 {
        return Err(PortAdaptorError::BufferTooShort);
    }
    Ok(read_u8(data, OBLIGATION_DEPOSITS_COUNT_OFF))
}

/// The obligation's borrow entry count.
pub fn obligation_borrows_count(data: &[u8]) -> (r: Result<u8, PortAdaptorError>)
    ensures
        data@.len() >= 140 ==> r is Ok && r->Ok_0 as nat == spec_borrows_count(data@),
        data@.len() < 140 ==> r == Err::<u8, PortAdaptorError>(PortAdaptorError::BufferTooShort),
{
    if data.len() < 140 {
        return Err(PortAdaptorError::BufferTooShort);
    }
    Ok(read_u8(data, OBLIGATION_BORROWS_COUNT_OFF))
}

/// Whether the obligation's cached figures are stale and must be refreshed
/// before any derived figure is trusted. Advisory: this library only
/// reports the flag.
pub fn is_obligation_stale(data: &[u8]) -> (r: Result<bool, PortAdaptorError>)
    ensures
        data@.len() >= 10 ==> r == Ok::<bool, PortAdaptorError>(data@[9] == 1),
        data@.len() < 10 ==> r == Err::<bool, PortAdaptorError>(PortAdaptorError::BufferTooShort),
{
    if data.len() < 10 {
        return Err(PortAdaptorError::BufferTooShort);
    }
    Ok(read_u8(data, STALE_FLAG_OFF) == 1)
}

/// The deposited amount of deposit entry `n`. An index at or past the
/// deposit count is a reported bounds error, never an implicit zero.
pub fn obligation_deposit_amount(data: &[u8], n: u8) -> (r: Result<u64, PortAdaptorError>)
    ensures
        data@.len() < 139 ==> r == Err::<u64, PortAdaptorError>(PortAdaptorError::BufferTooShort),
        data@.len() >= 139 && n as nat >= spec_deposits_count(data@) ==> r == Err::<
            u64,
            PortAdaptorError,
        >(PortAdaptorError::CollateralIndexOutOfBound),
        data@.len() >= 139 && (n as nat) < spec_deposits_count(data@) && data@.len() < 140 + n as nat
            * 56 + 40 ==> r == Err::<u64, PortAdaptorError>(PortAdaptorError::BufferTooShort),
        data@.len() >= 139 && (n as nat) < spec_deposits_count(data@) && data@.len() >= 140 + n as nat
            * 56 + 40 ==> r is Ok && r->Ok_0 as nat == spec_deposit_amount(data@, n as nat),
{
    let deposit_lens = match obligation_deposits_count(data) {
        Ok(v) => v,
        Err(e) => {
            return Err(e);
        },
    };
    if n >= deposit_lens {
        return Err(PortAdaptorError::CollateralIndexOutOfBound);
    }
    let start_index = OBLIGATION_ENTRIES_OFF + (n as usize) * DEPOSIT_ENTRY_LEN + PUBKEY_LEN;
    if data.len() < start_index + 8 {
        return Err(PortAdaptorError::BufferTooShort);
    }
    Ok(read_u64_le(data, start_index))
}

/// The borrowed amount of borrow entry `n` as a fixed-point decimal. An
/// index at or past the borrow count is a reported bounds error, never an
/// implicit zero.
pub fn obligation_borrow_amount_wads(data: &[u8], n: u8) -> (r: Result<Decimal, PortAdaptorError>)
    ensures
        data@.len() < 140 ==> r == Err::<Decimal, PortAdaptorError>(
            PortAdaptorError::BufferTooShort,
        ),
        data@.len() >= 140 && n as nat >= spec_borrows_count(data@) ==> r == Err::<
            Decimal,
            PortAdaptorError,
        >(PortAdaptorError::BorrowIndexOutOfBound),
        data@.len() >= 140 && (n as nat) < spec_borrows_count(data@) && data@.len() < 140
            + spec_deposits_count(data@) * 56 + n as nat * 80 + 64 ==> r == Err::<
            Decimal,
            PortAdaptorError,
        >(PortAdaptorError::BufferTooShort),
        data@.len() >= 140 && (n as nat) < spec_borrows_count(data@) && data@.len() >= 140
            + spec_deposits_count(data@) * 56 + n as nat * 80 + 64 ==> r is Ok
            && r->Ok_0.scaled as nat == spec_borrow_wads(
            data@,
            spec_deposits_count(data@),
            n as nat,
        ),
{
    let deposit_lens = match obligation_deposits_count(data) {
        Ok(v) => v,
        Err(e) => {
            return Err(e);
        },
    };
    let borrows_lens = match obligation_borrows_count(data) {
        Ok(v) => v,
        Err(e) => {
            return Err(e);
        },
    };
    if n >= borrows_lens {
        return Err(PortAdaptorError::BorrowIndexOutOfBound);
    }
    let start_index = OBLIGATION_ENTRIES_OFF + (deposit_lens as usize) * DEPOSIT_ENTRY_LEN + (
    n as usize) * BORROW_ENTRY_LEN + PUBKEY_LEN + 16;
    if data.len() < start_index + 16 {
        return Err(PortAdaptorError::BufferTooShort);
    }
    Ok(Decimal::from_scaled_val(read_u128_le(data, start_index)))
}

/// The outcome of the net-liquidity computation of one deposit/borrow pair:
/// the deposit at `di` converted to liquidity units through the scaled
/// exchange rate `rate` (zero with no deposit entries), minus the borrowed
/// amount at `bi` (zero with no borrow entries); a negative difference is
/// an insolvency, reported, never clamped.
pub open spec fn spec_obligation_liquidity(data: Seq<u8>, rate: nat, di: nat, bi: nat) -> Result<
    Decimal,
    PortAdaptorError,
> {
    if data.len() < 139 {
        Err(PortAdaptorError::BufferTooShort)
    } else {
        let dc = spec_deposits_count(data);
        if dc > 0 && di >= dc {
            Err(PortAdaptorError::CollateralIndexOutOfBound)
        } else if dc > 0 && data.len() < 140 + di * 56 + 40 {
            Err(PortAdaptorError::BufferTooShort)
        } else if dc > 0 && rate == 0 {
            Err(PortAdaptorError::MathOverflow)
        } else if dc > 0 && collateral_to_liquidity_val(spec_deposit_amount(data, di), rate)
            > u64::MAX {
            Err(PortAdaptorError::MathOverflow)
        } else {
            let dep: nat = if dc == 0 {
                0
            } else {
                collateral_to_liquidity_val(spec_deposit_amount(data, di), rate)
            };
            if data.len() < 140 {
                Err(PortAdaptorError::BufferTooShort)
            } else {
                let bc = spec_borrows_count(data);
                if bc > 0 && bi >= bc {
                    Err(PortAdaptorError::BorrowIndexOutOfBound)
                } else if bc > 0 && data.len() < 140 + dc * 56 + bi * 80 + 64 {
                    Err(PortAdaptorError::BufferTooShort)
                } else {
                    let bor: nat = if bc == 0 {
                        0
                    } else {
                        spec_borrow_wads(data, dc, bi)
                    };
                    if bor > dep * (WAD as nat) {
                        Err(PortAdaptorError::Insolvency)
                    } else {
                        Ok((Decimal { scaled: (dep * (WAD as nat) - bor) as u128 }))
                    }
                }
            }
        }
    }
}

/// The net liquidity of one deposit/borrow pair of the obligation: the
/// deposit at `deposit_index` converted to liquidity units through the
/// exchange rate (zero if there are no deposit entries) minus the borrowed
/// amount at `borrow_index` (zero if there are no borrow entries). Fails
/// with an insolvency when the difference would be negative: the position's
/// collateral does not cover its debt.
pub fn obligation_liquidity(
    data: &[u8],
    port_exchange_rate: &CollateralExchangeRate,
    deposit_index: u8,
    borrow_index: u8,
) -> (r: Result<Decimal, PortAdaptorError>)
    ensures
        r == spec_obligation_liquidity(
            data@,
            port_exchange_rate.scaled as nat,
            deposit_index as nat,
            borrow_index as nat,
        ),
{
    let dc = match obligation_deposits_count(data) {
        Ok(v) => v,
        Err(e) => {
            return Err(e);
        },
    };
    let deposit: u64 = if dc == 0 {
        0
    } else {
        let amount = match obligation_deposit_amount(data, deposit_index) {
            Ok(v) => v,
            Err(e) => {
                return Err(e);
            },
        };
        match port_exchange_rate.collateral_to_liquidity(amount) {
            Ok(v) => v,
            Err(e) => {
                return Err(e);
            },
        }
    };
    let bc = match obligation_borrows_count(data) {
        Ok(v) => v,
        Err(e) => {
            return Err(e);
        },
    };
    let borrow: Decimal = if bc == 0 {
        Decimal::zero()
    } else {
        match obligation_borrow_amount_wads(data, borrow_index) {
            Ok(v) => v,
            Err(e) => {
                return Err(e);
            },
        }
    };
    match Decimal::from_u64(deposit).try_sub(borrow) {
        Ok(d) => Ok(d),
        Err(_) => Err(PortAdaptorError::Insolvency),
    }
}

/// One deposit entry of a parsed obligation.
#[derive(Clone, Debug)]
pub struct ObligationCollateral {
    /// The 32-byte identifier of the reserve the deposit collateralizes.
    pub deposit_reserve: Vec<u8>,
    /// The deposited collateral amount, raw units.
    pub deposited_amount: u64,
}

/// One borrow entry of a parsed obligation.
#[derive(Clone, Debug)]
pub struct ObligationLiquidity {
    /// The 32-byte identifier of the reserve the liquidity was borrowed
    /// from.
    pub borrow_reserve: Vec<u8>,
    /// The borrowed amount as a fixed-point decimal.
    pub borrowed_amount_wads: Decimal,
}

/// A read-only projection of one obligation buffer: its deposit and borrow
/// entries. Parsing never writes back; the external account stays
/// untouched.
#[derive(Clone, Debug)]
pub struct PortObligation {
    /// The deposit entries, in wire order.
    pub deposits: Vec<ObligationCollateral>,
    /// The borrow entries, in wire order.
    pub borrows: Vec<ObligationLiquidity>,
}

/// Whether `ob` holds exactly the entries packed in `data`.
pub open spec fn spec_parsed_obligation(ob: PortObligation, data: Seq<u8>) -> bool {
    &&& ob.deposits@.len() == spec_deposits_count(data)
    &&& ob.borrows@.len() == spec_borrows_count(data)
    &&& forall|i: int|
        0 <= i < ob.deposits@.len() ==> (#[trigger] ob.deposits@[i]).deposit_reserve@
            == data.subrange(140 + i * 56, 140 + i * 56 + 32) && ob.deposits@[i].deposited_amount
            as nat == spec_deposit_amount(data, i as nat)
    &&& forall|i: int|
        0 <= i < ob.borrows@.len() ==> (#[trigger] ob.borrows@[i]).borrow_reserve@ == data.subrange(
            140 + spec_deposits_count(data) * 56 + i * 80,
            140 + spec_deposits_count(data) * 56 + i * 80 + 32,
        ) && ob.borrows@[i].borrowed_amount_wads.scaled as nat == spec_borrow_wads(
            data,
            spec_deposits_count(data),
            i as nat,
        )
}

/// The borrowed amount of the first borrow entry against reserve `id`, or
/// zero when none matches.
pub open spec fn spec_first_matching_borrow(borrows: Seq<ObligationLiquidity>, id: Seq<u8>) -> nat
    decreases borrows.len(),
{
    if borrows.len() == 0 {
        0
    } else if borrows[0].borrow_reserve@ == id {
        borrows[0].borrowed_amount_wads.scaled as nat
    } else {
        spec_first_matching_borrow(borrows.drop_first(), id)
    }
}

/// The deposited amount of the first deposit entry against reserve `id`,
/// or zero when none matches.
pub open spec fn spec_first_matching_deposit(deposits: Seq<ObligationCollateral>, id: Seq<u8>) -> nat
    decreases deposits.len(),
{
    if deposits.len() == 0 {
        0
    } else if deposits[0].deposit_reserve@ == id {
        deposits[0].deposited_amount as nat
    } else {
        spec_first_matching_deposit(deposits.drop_first(), id)
    }
}

/// The outcome of the position health check for a matched deposit amount,
/// matched borrowed amount and scaled exchange rate: the deposit converted
/// to liquidity units, minus the borrowed amount rounded up to the next
/// whole unit; an insolvency exactly when the rounded-up debt exceeds the
/// converted deposit.
pub open spec fn spec_calculate_liquidity(deposit: nat, borrow_wads: nat, rate: nat) -> Result<
    u64,
    PortAdaptorError,
> {
    if rate == 0 {
        Err(PortAdaptorError::MathOverflow)
    } else if collateral_to_liquidity_val(deposit, rate) > u64::MAX {
        Err(PortAdaptorError::MathOverflow)
    } else if ceil_div_wad(borrow_wads) > u64::MAX {
        Err(PortAdaptorError::MathOverflow)
    } else if ceil_div_wad(borrow_wads) > collateral_to_liquidity_val(deposit, rate) {
        Err(PortAdaptorError::Insolvency)
    } else {
        Ok((collateral_to_liquidity_val(deposit, rate) - ceil_div_wad(borrow_wads)) as u64)
    }
}

/// The borrowed amount of the first borrow entry against reserve `id`, or
/// zero when none matches.
fn first_matching_borrow(borrows: &Vec<ObligationLiquidity>, id: &[u8]) -> (r: Decimal)
    ensures
        r.scaled as nat == spec_first_matching_borrow(borrows@, id@),
{
    let mut i: usize = 0;
    proof {
        assert(borrows@.skip(0) =~= borrows@);
    }
    while i < borrows.len()
        invariant
            i <= borrows@.len(),
            spec_first_matching_borrow(borrows@, id@) == spec_first_matching_borrow(
                borrows@.skip(i as int),
                id@,
            ),
        decreases borrows@.len() - i,
    {
        if crate::bytes::bytes_eq(borrows[i].borrow_reserve.as_slice(), id) {
            proof {
                assert(borrows@.skip(i as int)[0] == borrows@[i as int]);
            }
            return borrows[i].borrowed_amount_wads;
        }
        proof {
            assert(borrows@.skip(i as int)[0] == borrows@[i as int]);
            assert(borrows@.skip(i as int).drop_first() =~= borrows@.skip(i as int + 1));
        }
        i = i + 1;
    }
    proof {
        assert(borrows@.skip(i as int) =~= Seq::<ObligationLiquidity>::empty());
    }
    Decimal::zero()
}

/// The deposited amount of the first deposit entry against reserve `id`,
/// or zero when none matches.
fn first_matching_deposit(deposits: &Vec<ObligationCollateral>, id: &[u8]) -> (r: u64)
    ensures
        r as nat == spec_first_matching_deposit(deposits@, id@),
{
    let mut i: usize = 0;
    proof {
        assert(deposits@.skip(0) =~= deposits@);
    }
    while i < deposits.len()
        invariant
            i <= deposits@.len(),
            spec_first_matching_deposit(deposits@, id@) == spec_first_matching_deposit(
                deposits@.skip(i as int),
                id@,
            ),
        decreases deposits@.len() - i,
    {
        if crate::bytes::bytes_eq(deposits[i].deposit_reserve.as_slice(), id) {
            proof {
                assert(deposits@.skip(i as int)[0] == deposits@[i as int]);
            }
            return deposits[i].deposited_amount;
        }
        proof {
            assert(deposits@.skip(i as int)[0] == deposits@[i as int]);
            assert(deposits@.skip(i as int).drop_first() =~= deposits@.skip(i as int + 1));
        }
        i = i + 1;
    }
    proof {
        assert(deposits@.skip(i as int) =~= Seq::<ObligationCollateral>::empty());
    }
    0
}

impl PortObligation {
    /// Parses the packed deposit and borrow entries out of an obligation
    /// buffer into a read-only projection. Fails when the buffer is too
    /// short for the entry counts it declares; nothing is ever written
    /// back.
    pub fn unpack(data: &[u8]) -> (r: Result<PortObligation, PortAdaptorError>)
        ensures
            data@.len() < 140 ==> r == Err::<PortObligation, PortAdaptorError>(
                PortAdaptorError::BufferTooShort,
            ),
            data@.len() >= 140 && data@.len() < 140 + spec_deposits_count(data@) * 56
                + spec_borrows_count(data@) * 80 ==> r == Err::<PortObligation, PortAdaptorError>(
                PortAdaptorError::BufferTooShort,
            ),
            data@.len() >= 140 + spec_deposits_count(data@) * 56 + spec_borrows_count(data@) * 80
                ==> r is Ok && spec_parsed_obligation(r->Ok_0, data@),
    {
        let dc = match obligation_deposits_count(data) {
            Ok(v) => v,
            Err(e) => {
                return Err(e);
            },
        };
        let bc = match obligation_borrows_count(data) {
            Ok(v) => v,
            Err(e) => {
                return Err(e);
            },
        };
        let needed = OBLIGATION_ENTRIES_OFF + (dc as usize) * DEPOSIT_ENTRY_LEN + (bc as usize)
            * BORROW_ENTRY_LEN;
        if data.len() < needed {
            return Err(PortAdaptorError::BufferTooShort);
        }
        let n = data.len();
        let mut deposits: Vec<ObligationCollateral> = Vec::new();
        let mut i: usize = 0;
        while i < dc as usize
            invariant
                i <= dc as nat,
                n == data@.len(),
                n >= 140 + dc as nat * 56 + bc as nat * 80,
                dc as nat == spec_deposits_count(data@),
                deposits@.len() == i,
                forall|j: int|
                    0 <= j < i ==> (#[trigger] deposits@[j]).deposit_reserve@ == data@.subrange(
                        140 + j * 56,
                        140 + j * 56 + 32,
                    ) && deposits@[j].deposited_amount as nat == spec_deposit_amount(
                        data@,
                        j as nat,
                    ),
            decreases dc as int - i,
        {
            let start = OBLIGATION_ENTRIES_OFF + i * DEPOSIT_ENTRY_LEN;
            let reserve = crate::bytes::read_id32(data, start);
            let amount = read_u64_le(data, start + PUBKEY_LEN);
            deposits.push(ObligationCollateral { deposit_reserve: reserve, deposited_amount: amount });
            i = i + 1;
        }
        let base = OBLIGATION_ENTRIES_OFF + (dc as usize) * DEPOSIT_ENTRY_LEN;
        let mut borrows: Vec<ObligationLiquidity> = Vec::new();
        let mut k: usize = 0;
        while k < bc as usize
            invariant
                k <= bc as nat,
                n == data@.len(),
                n >= 140 + dc as nat * 56 + bc as nat * 80,
                dc as nat == spec_deposits_count(data@),
                bc as nat == spec_borrows_count(data@),
                base == 140 + dc as nat * 56,
                borrows@.len() == k,
                forall|j: int|
                    0 <= j < k ==> (#[trigger] borrows@[j]).borrow_reserve@ == data@.subrange(
                        140 + dc as int * 56 + j * 80,
                        140 + dc as int * 56 + j * 80 + 32,
                    ) && borrows@[j].borrowed_amount_wads.scaled as nat == spec_borrow_wads(
                        data@,
                        dc as nat,
                        j as nat,
                    ),
            decreases bc as int - k,
        {
            let start = base + k * BORROW_ENTRY_LEN;
            let reserve = crate::bytes::read_id32(data, start);
            let wads = read_u128_le(data, start + PUBKEY_LEN + 16);
            borrows.push(
                ObligationLiquidity {
                    borrow_reserve: reserve,
                    borrowed_amount_wads: Decimal::from_scaled_val(wads),
                },
            );
            k = k + 1;
        }
        Ok(PortObligation { deposits, borrows })
    }

    /// The position health check against one reserve: finds the borrow and
    /// deposit entries whose reserve identifier equals `reserve_pubkey`
    /// (each defaulting to zero when absent), converts the deposit to
    /// liquidity units through `exchange_rate`, rounds the borrowed amount
    /// up to the next whole unit, and subtracts. Fails with an insolvency
    /// exactly when the rounded-up debt exceeds the collateral's value;
    /// callers must then refuse the gated action.
    pub fn calculate_liquidity(
        &self,
        reserve_pubkey: &[u8],
        exchange_rate: CollateralExchangeRate,
    ) -> (r: Result<u64, PortAdaptorError>)
        ensures
            r == spec_calculate_liquidity(
                spec_first_matching_deposit(self.deposits@, reserve_pubkey@),
                spec_first_matching_borrow(self.borrows@, reserve_pubkey@),
                exchange_rate.scaled as nat,
            ),
    {
        let borrow = first_matching_borrow(&self.borrows, reserve_pubkey);
        let deposit = first_matching_deposit(&self.deposits, reserve_pubkey);
        let liquidity = match exchange_rate.collateral_to_liquidity(deposit) {
            Ok(v) => v,
            Err(e) => {
                return Err(e);
            },
        };
        let debt = match borrow.try_ceil_u64() {
            Ok(v) => v,
            Err(e) => {
                return Err(e);
            },
        };
        if debt > liquidity {
            Err(PortAdaptorError::Insolvency)
        } else {
            Ok(liquidity - debt)
        }
    }
}

/// Law: for a fixed exchange rate and deposit, net liquidity is
/// monotonically decreasing in the borrowed amount. A health check that
/// succeeds with the larger borrow also succeeds with the smaller one, and
/// yields at least as much net liquidity.
pub proof fn lemma_calculate_liquidity_borrow_monotone(deposit: nat, b1: nat, b2: nat, rate: nat)
    requires
        b1 <= b2,
        spec_calculate_liquidity(deposit, b2, rate) is Ok,
    ensures
        spec_calculate_liquidity(deposit, b1, rate) is Ok,
        spec_calculate_liquidity(deposit, b1, rate)->Ok_0 >= spec_calculate_liquidity(
            deposit,
            b2,
            rate,
        )->Ok_0,
{
    crate::decimal::lemma_ceil_div_wad_monotone(b1, b2);
}

/// Law: for a fixed exchange rate and borrow, net liquidity is
/// monotonically increasing in the deposited amount: when the health check
/// succeeds on both deposits, the larger deposit yields at least as much
/// net liquidity.
pub proof fn lemma_calculate_liquidity_deposit_monotone(d1: nat, d2: nat, borrow: nat, rate: nat)
    requires
        d1 <= d2,
        spec_calculate_liquidity(d1, borrow, rate) is Ok,
        spec_calculate_liquidity(d2, borrow, rate) is Ok,
    ensures
        spec_calculate_liquidity(d1, borrow, rate)->Ok_0 <= spec_calculate_liquidity(
            d2,
            borrow,
            rate,
        )->Ok_0,
{
    crate::decimal::lemma_collateral_to_liquidity_monotone(d1, d2, rate);
}

/// Law: the health check reports an insolvency exactly when the borrowed
/// amount rounded up to a whole unit exceeds the deposit's value in
/// liquidity units, whenever neither quantity overflows 64 bits.
pub proof fn lemma_calculate_liquidity_insolvency(deposit: nat, borrow: nat, rate: nat)
    requires
        rate > 0,
        collateral_to_liquidity_val(deposit, rate) <= u64::MAX,
        ceil_div_wad(borrow) <= u64::MAX,
    ensures
        spec_calculate_liquidity(deposit, borrow, rate) == Err::<u64, PortAdaptorError>(
            PortAdaptorError::Insolvency,
        ) <==> ceil_div_wad(borrow) > collateral_to_liquidity_val(deposit, rate),
{
}

} // verus!

