//! Integer arithmetic on token amounts, with the rounding of `i128` division.
use vstd::prelude::*;

verus! {

/// Basis points in one whole.
pub const BPS_DENOMINATOR: i128 = 10_000;

/// Whether `x` is a value of `i128`.
pub open spec fn fits_i128(x: int) -> bool {
    i128::MIN <= x <= i128::MAX
}

/// Division by a positive divisor that rounds toward zero, as `i128` division does.
pub open spec fn trunc_div(a: int, d: int) -> int
    recommends
        d > 0,
{
    if a >= 0 {
        a / d
    } else {
        -((-a) / d)
    }
}

/// `amount * bps / 10_000`, rounded toward zero.
pub open spec fn bps_part(amount: int, bps: int) -> int {
    trunc_div(amount * bps, BPS_DENOMINATOR as int)
}

/// Whether `amount * bps` can be formed in `i128`, the one step of
/// `amount * bps / 10_000` that can overflow.
pub open spec fn bps_part_fits(amount: int, bps: int) -> bool {
    fits_i128(amount * bps)
}

/// `amount * bps / 10_000` in `i128`, or `None` where the product overflows.
pub fn apply_bps(amount: i128, bps: i128) -> (r: Option<i128>)
    ensures
        match r {
            Some(v) => bps_part_fits(amount as int, bps as int) && v == bps_part(amount as int, bps as int),
            None => !bps_part_fits(amount as int, bps as int),
        },
{
    match amount.checked_mul(bps) {
        None => None,
        Some(p) => {
            if p >= 0 {
                Some(p / BPS_DENOMINATOR)
            } else {
                // |p| = m + 1 with m >= 0; |p| / d = m / d, plus one when m + 1 is a multiple of d.
                let m: i128 = -(p + 1);
                let q: i128 = m / BPS_DENOMINATOR;
                let carry: i128 = if m % BPS_DENOMINATOR == BPS_DENOMINATOR - 1 {
                    1
                } else {
                    0
                };
                assert(q + carry == (m + 1) / 10_000) by {
                    assert(m == 10_000 * (m / 10_000) + m % 10_000);
                    assert(0 <= m % 10_000 < 10_000);
                    if m % 10_000 == 9_999 {
                        assert(m + 1 == 10_000 * (m / 10_000 + 1));
                    } else {
                        assert(m + 1 == 10_000 * (m / 10_000) + (m % 10_000 + 1));
                    }
                }
                Some(-(q + carry))
            }
        },
    }
}

} // verus!
