//! Unsigned fixed-point arithmetic scaled by `WAD` (10^18).
//!
//! `Decimal` carries liquidity amounts and prices in a 128-bit scaled
//! integer; `Rate` carries small ratios in a 64-bit scaled integer; a
//! `CollateralExchangeRate` widens a rate to 128 bits. Every operation that
//! could leave the representable range reports a failure instead of
//! wrapping or saturating.

use vstd::arithmetic::div_mod::{
    lemma_div_is_ordered, lemma_div_multiples_vanish_fancy, lemma_fundamental_div_mod,
    lemma_fundamental_div_mod_converse,
};
use vstd::arithmetic::mul::lemma_mul_inequality;
use vstd::prelude::*;

use crate::error::PortAdaptorError;
use crate::WAD;

verus! {

/// An unsigned decimal: the represented value times `WAD`, in 128 bits.
#[derive(Clone, Copy, Debug, PartialEq, Eq, Structural)]
pub struct Decimal {
    /// The underlying scaled integer.
    pub scaled: u128,
}

/// An unsigned ratio: the represented value times `WAD`, in 64 bits.
#[derive(Clone, Copy, Debug, PartialEq, Eq, Structural)]
pub struct Rate {
    /// The underlying scaled integer.
    pub scaled: u64,
}

/// The ratio of collateral-mint units to liquidity units, widened to 128
/// bits; converting collateral to liquidity divides by this rate.
#[derive(Clone, Copy, Debug, PartialEq, Eq, Structural)]
pub struct CollateralExchangeRate {
    /// The underlying scaled integer.
    pub scaled: u128,
}

/// The ceiling of `v / WAD`: the smallest whole number of units covering a
/// scaled value.
pub open spec fn ceil_div_wad(v: nat) -> nat {
    v / (WAD as nat) + if v % (WAD as nat) == 0 {
        0nat
    } else {
        1nat
    }
}

/// Liquidity units for `c` collateral units at scaled exchange rate `rate`:
/// the quotient `c / rate` floored to a whole unit count.
pub open spec fn collateral_to_liquidity_val(c: nat, rate: nat) -> nat
    recommends
        rate > 0,
{
    (c * WAD) as nat / rate
}

impl Decimal {
    /// The zero amount.
    pub fn zero() -> (r: Decimal)
        ensures
            r.scaled == 0,
    {
        Decimal { scaled: 0 }
    }

    /// A decimal from an already scaled raw value, as stored on the wire.
    pub fn from_scaled_val(v: u128) -> (r: Decimal)
        ensures
            r.scaled == v,
    {
        Decimal { scaled: v }
    }

    /// A decimal representing the whole number `v`.
    pub fn from_u64(v: u64) -> (r: Decimal)
        ensures
            r.scaled == v as int * WAD as int,
    {
        proof {
            lemma_mul_inequality(v as int, u64::MAX as int, WAD as int);
        }
        Decimal { scaled: (v as u128) * (WAD as u128) }
    }

    /// Checked addition: fails instead of wrapping past 128 bits.
    pub fn try_add(self, rhs: Decimal) -> (r: Result<Decimal, PortAdaptorError>)
        ensures
            self.scaled + rhs.scaled <= u128::MAX ==> r == Ok::<Decimal, PortAdaptorError>(
                (Decimal { scaled: (self.scaled + rhs.scaled) as u128 }),
            ),
            self.scaled + rhs.scaled > u128::MAX ==> r == Err::<Decimal, PortAdaptorError>(PortAdaptorError::MathOverflow),
    {
        if self.scaled > u128::MAX - rhs.scaled {
            Err(PortAdaptorError::MathOverflow)
        } else {
            Ok(Decimal { scaled: self.scaled + rhs.scaled })
        }
    }

    /// Checked subtraction: fails instead of going negative.
    pub fn try_sub(self, rhs: Decimal) -> (r: Result<Decimal, PortAdaptorError>)
        ensures
            rhs.scaled <= self.scaled ==> r == Ok::<Decimal, PortAdaptorError>(
                (Decimal { scaled: (self.scaled - rhs.scaled) as u128 }),
            ),
            rhs.scaled > self.scaled ==> r == Err::<Decimal, PortAdaptorError>(PortAdaptorError::MathOverflow),
    {
        if rhs.scaled > self.scaled {
            Err(PortAdaptorError::MathOverflow)
        } else {
            Ok(Decimal { scaled: self.scaled - rhs.scaled })
        }
    }

    /// The represented value rounded up to a whole number, if it fits in 64
    /// bits; never rounds down, so debt is never under-counted.
    pub fn try_ceil_u64(self) -> (r: Result<u64, PortAdaptorError>)
        ensures
            ceil_div_wad(self.scaled as nat) <= u64::MAX ==> r == Ok::<u64, PortAdaptorError>(
                ceil_div_wad(self.scaled as nat) as u64,
            ),
            ceil_div_wad(self.scaled as nat) > u64::MAX ==> r == Err::<u64, PortAdaptorError>(
                PortAdaptorError::MathOverflow,
            ),
    {
        let w = WAD as u128;
        let q = self.scaled / w;
        let rem = self.scaled % w;
        let c = if rem != 0 {
            q + 1
        } else {
            q
        };
        if c > u64::MAX as u128 {
            Err(PortAdaptorError::MathOverflow)
        } else {
            Ok(c as u64)
        }
    }
}

/// `ceil_div_wad` is the rounded-up quotient by `WAD`: the whole-unit
/// count `(v + WAD - 1) / WAD`.
pub proof fn lemma_ceil_div_wad_eq(v: nat)
    ensures
        ceil_div_wad(v) as int == (v as int + WAD - 1) / (WAD as int),
{
    let w = WAD as int;
    let q = v as int / w;
    let r = v as int % w;
    lemma_fundamental_div_mod(v as int, w);
    if r == 0 {
        assert(v as int + w - 1 == w * q + (w - 1));
        lemma_div_multiples_vanish_fancy(q, w - 1, w);
    } else {
        assert(v as int + w - 1 == w * (q + 1) + (r - 1));
        lemma_div_multiples_vanish_fancy(q + 1, r - 1, w);
    }
}

/// Rounding up to whole units keeps order: a smaller scaled value never
/// rounds to a larger unit count.
pub proof fn lemma_ceil_div_wad_monotone(v1: nat, v2: nat)
    requires
        v1 <= v2,
    ensures
        ceil_div_wad(v1) <= ceil_div_wad(v2),
{
    lemma_ceil_div_wad_eq(v1);
    lemma_ceil_div_wad_eq(v2);
    lemma_div_is_ordered(v1 as int + WAD - 1, v2 as int + WAD - 1, WAD as int);
}

/// Converting collateral to liquidity keeps order: a smaller collateral
/// amount never converts to more liquidity units.
pub proof fn lemma_collateral_to_liquidity_monotone(c1: nat, c2: nat, rate: nat)
    requires
        c1 <= c2,
        rate > 0,
    ensures
        collateral_to_liquidity_val(c1, rate) <= collateral_to_liquidity_val(c2, rate),
{
    lemma_mul_inequality(c1 as int, c2 as int, WAD as int);
    lemma_div_is_ordered((c1 * WAD) as int, (c2 * WAD) as int, rate as int);
}

/// 10 to the power `k`.
pub open spec fn pow10(k: nat) -> nat
    decreases k,
{
    if k == 0 {
        1
    } else {
        10 * pow10((k - 1) as nat)
    }
}

proof fn lemma_pow10_pos(k: nat)
    ensures
        pow10(k) >= 1,
    decreases k,
{
    if k > 0 {
        lemma_pow10_pos((k - 1) as nat);
    }
}

proof fn lemma_pow10_adds(m: nat, n: nat)
    ensures
        pow10(m + n) == pow10(m) * pow10(n),
    decreases m,
{
    if m == 0 {
        assert(pow10(m) == 1);
        assert(pow10(m + n) == pow10(n));
        assert(pow10(m) * pow10(n) == pow10(n)) by (nonlinear_arith)
            requires
                pow10(m) == 1,
        {}
    } else {
        lemma_pow10_adds((m - 1) as nat, n);
        assert(pow10(m + n) == 10 * pow10((m + n - 1) as nat));
        assert((m + n - 1) as nat == (m - 1) as nat + n);
        assert(pow10(m) == 10 * pow10((m - 1) as nat));
        assert(pow10((m + n - 1) as nat) == pow10((m - 1) as nat) * pow10(n));
        assert(10 * ((pow10((m - 1) as nat) * pow10(n))) == (10 * pow10((m - 1) as nat)) * pow10(
            n,
        )) by (nonlinear_arith);
        assert(pow10(m + n) == pow10(m) * pow10(n));
    }
}

/// Doubles the value `q * l + r` (with `r < l`) kept as quotient and
/// remainder by `l`; fails only when the doubled quotient needs more than
/// 128 bits.
fn dbl_mod(q: u128, r: u128, l: u128) -> (res: Option<(u128, u128)>)
    requires
        l > 0,
        r < l,
    ensures
        match res {
            Some(p) => p.0 * l + p.1 == 2 * (q * l + r) && p.1 < l,
            None => 2 * (q * l + r) >= (u128::MAX + 1) * l,
        },
{
    if q > (u128::MAX - 1) / 2 {
        proof {
            assert(2 * (q * l + r) >= (u128::MAX + 1) * l) by (nonlinear_arith)
                requires
                    q >= 0x80000000000000000000000000000000,
                    l >= 1,
                    r >= 0,
            {}
        }
        return None;
    }
    let q2 = q * 2;
    if r >= l - r {
        proof {
            assert((q2 + 1) * l + (r - (l - r)) == 2 * (q * l + r)) by (nonlinear_arith)
                requires
                    q2 == 2 * q,
            {}
        }
        Some((q2 + 1, r - (l - r)))
    } else {
        proof {
            assert(q2 * l + (r + r) == 2 * (q * l + r)) by (nonlinear_arith)
                requires
                    q2 == 2 * q,
            {}
        }
        Some((q2, r + r))
    }
}

/// Adds two values kept as quotient and remainder by `l`; fails only when
/// the summed quotient needs more than 128 bits.
fn add_mod(q1: u128, r1: u128, q2: u128, r2: u128, l: u128) -> (res: Option<(u128, u128)>)
    requires
        l > 0,
        r1 < l,
        r2 < l,
    ensures
        match res {
            Some(p) => p.0 * l + p.1 == (q1 * l + r1) + (q2 * l + r2) && p.1 < l,
            None => (q1 * l + r1) + (q2 * l + r2) >= (u128::MAX + 1) * l,
        },
{
    let rs: u128;
    let carry: u128;
    if r1 >= l - r2 {
        rs = r1 - (l - r2);
        carry = 1;
    } else {
        rs = r1 + r2;
        carry = 0;
    }
    if q1 > u128::MAX - q2 {
        proof {
            assert((q1 * l + r1) + (q2 * l + r2) >= (u128::MAX + 1) * l) by (nonlinear_arith)
                requires
                    q1 + q2 >= u128::MAX + 1,
                    l >= 1,
                    r1 >= 0,
                    r2 >= 0,
            {}
        }
        return None;
    }
    let qa = q1 + q2;
    if carry == 1 && qa == u128::MAX {
        proof {
            assert((q1 * l + r1) + (q2 * l + r2) >= (u128::MAX + 1) * l) by (nonlinear_arith)
                requires
                    q1 + q2 == u128::MAX,
                    r1 + r2 >= l,
                    l >= 1,
            {}
        }
        return None;
    }
    proof {
        assert((qa + carry) * l + rs == (q1 * l + r1) + (q2 * l + r2)) by (nonlinear_arith)
            requires
                qa == q1 + q2,
                carry == 1 ==> rs == r1 + r2 - l,
                carry == 0 ==> rs == r1 + r2,
                carry == 0 || carry == 1,
        {}
    }
    Some((qa + carry, rs))
}

/// The quotient `(a * WAD) / l`, exact, or `None` when it needs more than
/// 128 bits. Computed by multiplying the running quotient and remainder by
/// ten, eighteen times.
fn mul_wad_div(a: u128, l: u128) -> (res: Option<u128>)
    requires
        l > 0,
    ensures
        match res {
            Some(q) => q == (a * WAD) / (l as int),
            None => a * WAD >= (u128::MAX + 1) * l,
        },
{
    let mut q: u128 = a / l;
    let mut r: u128 = a % l;
    let mut k: usize = 0;
    proof {
        assert(pow10(18) == WAD) by {
            reveal_with_fuel(pow10, 19);
        }
        lemma_fundamental_div_mod(a as int, l as int);
        assert((a as int / l as int) * l == l * (a as int / l as int)) by (nonlinear_arith);
        assert(pow10(0) == 1);
        assert(a * pow10(0) == a * 1);
        assert(a * 1 == a) by (nonlinear_arith);
    }
    while k < 18
        invariant
            l > 0,
            k <= 18,
            r < l,
            q * l + r == a * pow10(k as nat),
            pow10(18) == WAD,
        decreases 18 - k,
    {
        let q0 = q;
        let r0 = r;
        let ghost v0: int = a * pow10(k as nat);
        proof {
            lemma_pow10_pos(k as nat);
            lemma_pow10_adds(k as nat, (18 - k) as nat);
            lemma_pow10_pos((17 - k) as nat);
            // With at least one factor of ten still to apply, the final
            // value dominates ten times the current one.
            assert(a * pow10(18) >= 10 * v0) by (nonlinear_arith)
                requires
                    v0 == a * pow10(k as nat),
                    a >= 0,
                    pow10(18) == pow10(k as nat) * pow10((18 - k) as nat),
                    pow10((18 - k) as nat) == 10 * pow10((17 - k) as nat),
                    pow10((17 - k) as nat) >= 1,
            {}
        }
        let step2 = match dbl_mod(q, r, l) {
            Some(p) => p,
            None => {
                proof {
                    assert(a * pow10(18) >= (u128::MAX + 1) * l) by (nonlinear_arith)
                        requires
                            2 * v0 >= (u128::MAX + 1) * l,
                            a * pow10(18) >= 10 * v0,
                            v0 >= 0,
                    {}
                }
                return None;
            },
        };
        let step4 = match dbl_mod(step2.0, step2.1, l) {
            Some(p) => p,
            None => {
                proof {
                    assert(a * pow10(18) >= (u128::MAX + 1) * l) by (nonlinear_arith)
                        requires
                            4 * v0 >= (u128::MAX + 1) * l,
                            a * pow10(18) >= 10 * v0,
                            v0 >= 0,
                    {}
                }
                return None;
            },
        };
        let step5 = match add_mod(step4.0, step4.1, q0, r0, l) {
            Some(p) => p,
            None => {
                proof {
                    assert(a * pow10(18) >= (u128::MAX + 1) * l) by (nonlinear_arith)
                        requires
                            5 * v0 >= (u128::MAX + 1) * l,
                            a * pow10(18) >= 10 * v0,
                            v0 >= 0,
                    {}
                }
                return None;
            },
        };
        let step10 = match dbl_mod(step5.0, step5.1, l) {
            Some(p) => p,
            None => {
                proof {
                    assert(a * pow10(18) >= (u128::MAX + 1) * l) by (nonlinear_arith)
                        requires
                            10 * v0 >= (u128::MAX + 1) * l,
                            a * pow10(18) >= 10 * v0,
                            v0 >= 0,
                    {}
                }
                return None;
            },
        };
        q = step10.0;
        r = step10.1;
        k = k + 1;
        proof {
            assert(pow10(k as nat) == 10 * pow10((k - 1) as nat));
            assert(a * pow10(k as nat) == 10 * (a * pow10((k - 1) as nat))) by (nonlinear_arith)
                requires
                    pow10(k as nat) == 10 * pow10((k - 1) as nat),
            {}
        }
    }
    proof {
        lemma_fundamental_div_mod_converse(a * WAD, l as int, q as int, r as int);
    }
    Some(q)
}

impl Decimal {
    /// Checked fixed-point division: the scaled quotient
    /// `(self * WAD) / rhs`, floored. Fails on a zero divisor and when the
    /// quotient needs more than 128 bits.
    pub fn try_div(self, rhs: Decimal) -> (r: Result<Decimal, PortAdaptorError>)
        ensures
            rhs.scaled == 0 ==> r == Err::<Decimal, PortAdaptorError>(
                PortAdaptorError::MathOverflow,
            ),
            rhs.scaled != 0 && (self.scaled * WAD) / (rhs.scaled as int) <= u128::MAX ==> r == Ok::<
                Decimal,
                PortAdaptorError,
            >((Decimal { scaled: ((self.scaled * WAD) / (rhs.scaled as int)) as u128 })),
            rhs.scaled != 0 && (self.scaled * WAD) / (rhs.scaled as int) > u128::MAX ==> r
                == Err::<Decimal, PortAdaptorError>(PortAdaptorError::MathOverflow),
    {
        if rhs.scaled == 0 {
            return Err(PortAdaptorError::MathOverflow);
        }
        match mul_wad_div(self.scaled, rhs.scaled) {
            Some(q) => Ok(Decimal { scaled: q }),
            None => {
                proof {
                    lemma_div_is_ordered(
                        (u128::MAX + 1) * rhs.scaled,
                        self.scaled * WAD,
                        rhs.scaled as int,
                    );
                    vstd::arithmetic::div_mod::lemma_div_multiples_vanish(
                        u128::MAX + 1,
                        rhs.scaled as int,
                    );
                }
                Err(PortAdaptorError::MathOverflow)
            },
        }
    }
}

impl Rate {
    /// A rate from an already scaled raw value, as stored on the wire.
    pub fn from_scaled_val(v: u64) -> (r: Rate)
        ensures
            r.scaled == v,
    {
        Rate { scaled: v }
    }
}

impl CollateralExchangeRate {
    /// Converts `collateral_amount` collateral units into liquidity units,
    /// flooring to a whole unit count. Fails on a zero rate (nothing to
    /// divide by) and when the result does not fit in 64 bits.
    pub fn collateral_to_liquidity(&self, collateral_amount: u64) -> (r: Result<
        u64,
        PortAdaptorError,
    >)
        ensures
            self.scaled == 0 ==> r == Err::<u64, PortAdaptorError>(PortAdaptorError::MathOverflow),
            self.scaled != 0 && collateral_to_liquidity_val(
                collateral_amount as nat,
                self.scaled as nat,
            ) <= u64::MAX ==> r == Ok::<u64, PortAdaptorError>(
                collateral_to_liquidity_val(collateral_amount as nat, self.scaled as nat) as u64,
            ),
            self.scaled != 0 && collateral_to_liquidity_val(
                collateral_amount as nat,
                self.scaled as nat,
            ) > u64::MAX ==> r == Err::<u64, PortAdaptorError>(PortAdaptorError::MathOverflow),
    {
        if self.scaled == 0 {
            return Err(PortAdaptorError::MathOverflow);
        }
        proof {
            lemma_mul_inequality(collateral_amount as int, u64::MAX as int, WAD as int);
        }
        let wide = (collateral_amount as u128) * (WAD as u128);
        let q = wide / self.scaled;
        if q > u64::MAX as u128 {
            Err(PortAdaptorError::MathOverflow)
        } else {
            Ok(q as u64)
        }
    }
}

} // verus!
