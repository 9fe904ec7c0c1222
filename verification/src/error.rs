use vstd::prelude::*;

verus! {

/// Failure conditions surfaced by the valuation library.
///
/// Every operation either completes or reports one of these; nothing is
/// silently clamped or defaulted.
#[derive(Clone, Copy, Debug, PartialEq, Eq, Structural)]
pub enum PortAdaptorError {
    /// Net liquidity would be negative: outstanding debt exceeds the
    /// collateral's value in liquidity terms.
    Insolvency,
    /// A deposit entry was requested at an index at or past the
    /// obligation's deposit count.
    CollateralIndexOutOfBound,
    /// A borrow entry was requested at an index at or past the
    /// obligation's borrow count.
    BorrowIndexOutOfBound,
    /// The account buffer is shorter than the byte range a field occupies.
    BufferTooShort,
    /// A fixed-point operation left the representable range.
    MathOverflow,
}

} // verus!
