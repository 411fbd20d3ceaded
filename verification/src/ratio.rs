//! Scaling a 128-bit amount by a ratio without losing the high bits of the
//! product.

use vstd::prelude::*;
use vstd::arithmetic::div_mod::{
    lemma_fundamental_div_mod,
    lemma_fundamental_div_mod_converse,
    lemma_mod_bound,
};

verus! {

/// `amount * part / whole`, rounded down.
pub open spec fn scaled_floor(amount: nat, part: nat, whole: nat) -> nat {
    (amount * part) / whole
}

/// A quotient of `amount * part` by `whole` is at most `amount` when `part`
/// is at most `whole`.
proof fn lemma_quotient_at_most_amount(q: int, r: int, amount: int, part: int, whole: int)
    by (nonlinear_arith)
    requires
        q * whole + r == amount * part,
        0 <= r,
        0 <= amount,
        0 <= part <= whole,
        0 < whole,
    ensures
        q <= amount,
{
    assert(amount * part <= amount * whole);
    if q > amount {
        assert(q * whole >= (amount + 1) * whole);
    }
}

/// A share of a sum is at most the sum: `amount * part / whole <= amount`
/// when `part <= whole`.
pub proof fn lemma_scaled_floor_at_most_amount(amount: nat, part: nat, whole: nat)
    requires
        part <= whole,
        0 < whole,
    ensures
        scaled_floor(amount, part, whole) <= amount,
{
    let x = (amount * part) as int;
    let d = whole as int;
    lemma_fundamental_div_mod(x, d);
    lemma_mod_bound(x, d);
    assert(x == d * (x / d) + x % d);
    assert((x / d) * d == d * (x / d)) by (nonlinear_arith);
    lemma_quotient_at_most_amount(x / d, x % d, amount as int, part as int, d);
}

/// Rounding down never gives more than the exact share: the share times the
/// whole is at most the product.
pub proof fn lemma_scaled_floor_times_whole(amount: nat, part: nat, whole: nat)
    requires
        0 < whole,
    ensures
        scaled_floor(amount, part, whole) * whole <= amount * part,
{
    let x = (amount * part) as int;
    let d = whole as int;
    lemma_fundamental_div_mod(x, d);
    lemma_mod_bound(x, d);
    assert((x / d) * d == d * (x / d)) by (nonlinear_arith);
}

/// Quotient and remainder of `amount * part` by `whole`.
///
/// The product may need up to 256 bits. It is never formed: the function
/// walks the bits of `part` from the highest down and keeps the quotient and
/// the remainder of what it has seen so far, both of which fit in 128 bits.
fn mul_div_rem(amount: u128, part: u128, whole: u128) -> (qr: (u128, u128))
    requires
        0 < whole,
        part <= whole,
    ensures
        qr.0 * whole + qr.1 == amount * part,
        qr.1 < whole,
    decreases part,
{
    if part == 0 {
        assert(amount * 0 == 0) by (nonlinear_arith);
        return (0, 0);
    }
    let half: u128 = part / 2;
    let (q1, r1) = mul_div_rem(amount, half, whole);
    let ghost a = amount as int;
    let ghost d = whole as int;
    // Twice what the upper bits gave.
    let q2: u128;
    let r2: u128;
    if r1 >= whole - r1 {
        proof {
            assert((2 * q1 + 1) * d + (2 * r1 - d) == a * (2 * half)) by (nonlinear_arith)
                requires
                    q1 * d + r1 == a * half,
            ;
            lemma_quotient_at_most_amount(2 * q1 + 1, 2 * r1 - d, a, 2 * half, d);
        }
        q2 = 2 * q1 + 1;
        r2 = r1 - (whole - r1);
    } else {
        proof {
            assert((2 * q1) * d + (2 * r1) == a * (2 * half)) by (nonlinear_arith)
                requires
                    q1 * d + r1 == a * half,
            ;
            lemma_quotient_at_most_amount(2 * q1, 2 * r1, a, 2 * half, d);
        }
        q2 = 2 * q1;
        r2 = 2 * r1;
    }
    if part % 2 == 1 {
        // The lowest bit adds `amount` once.
        let qa: u128 = amount / whole;
        let ra: u128 = amount % whole;
        proof {
            lemma_fundamental_div_mod(a, d);
            assert(d * (a / d) == qa * d) by (nonlinear_arith)
                requires
                    qa == a / d,
            ;
            assert(a == qa * d + ra);
            assert(a * part == a * (2 * half) + a) by (nonlinear_arith)
                requires
                    part == 2 * half + 1,
            ;
        }
        if r2 >= whole - ra {
            proof {
                assert((q2 + qa + 1) * d + (r2 + ra - d) == a * part) by (nonlinear_arith)
                    requires
                        q2 * d + r2 == a * (2 * half),
                        a == qa * d + ra,
                        a * part == a * (2 * half) + a,
                ;
                lemma_quotient_at_most_amount(q2 + qa + 1, r2 + ra - d, a, part as int, d);
            }
            (q2 + qa + 1, r2 - (whole - ra))
        } else {
            proof {
                assert((q2 + qa) * d + (r2 + ra) == a * part) by (nonlinear_arith)
                    requires
                        q2 * d + r2 == a * (2 * half),
                        a == qa * d + ra,
                        a * part == a * (2 * half) + a,
                ;
                lemma_quotient_at_most_amount(q2 + qa, r2 + ra, a, part as int, d);
            }
            (q2 + qa, r2 + ra)
        }
    } else {
        assert(part == 2 * half);
        (q2, r2)
    }
}

/// Computes `amount * part / whole`, rounded down, for a part that does not
/// exceed the whole.
///
/// The result is exact even where `amount * part` does not fit in 128 bits.
pub fn mul_div_floor(amount: u128, part: u128, whole: u128) -> (share: u128)
    requires
        0 < whole,
        part <= whole,
    ensures
        share == scaled_floor(amount as nat, part as nat, whole as nat),
        share <= amount,
{
    let (q, r) = mul_div_rem(amount, part, whole);
    proof {
        lemma_fundamental_div_mod_converse(
            amount as int * part as int,
            whole as int,
            q as int,
            r as int,
        );
        lemma_scaled_floor_at_most_amount(amount as nat, part as nat, whole as nat);
    }
    q
}

} // verus!
