//! Arithmetic on `i32` that wraps around at the ends of the range.
//!
//! A sum that does not fit in an `i32` is not an error here: the result is
//! the value in range that differs from the exact one by a multiple of 2^32,
//! as the machine's two's-complement arithmetic gives it.

use vstd::prelude::*;

verus! {

/// The number of distinct `i32` values, 2^32.
pub open spec fn modulus() -> int {
    0x1_0000_0000
}

/// The one integer in the range of `i32` that differs from `x` by a multiple
/// of `modulus()`.
pub open spec fn wrap(x: int) -> int {
    let r = x % modulus();
    if r > i32::MAX {
        r - modulus()
    } else {
        r
    }
}

/// Adds two integers, wrapping around at the ends of the `i32` range.
pub fn add(a: i32, b: i32) -> (sum: i32)
    ensures
        sum == wrap(a + b),
        i32::MIN <= a + b <= i32::MAX ==> sum == a + b,
{
    a.wrapping_add(b)
}

/// Doubles an integer, wrapping around at the ends of the `i32` range.
pub fn double(n: i32) -> (twice: i32)
    ensures
        twice == wrap(2 * n),
        i32::MIN <= 2 * n <= i32::MAX ==> twice == 2 * n,
{
    n.wrapping_add(n)
}

/// Wrapping leaves a value in the range of `i32` as it is, and gives a value
/// in that range for every integer.
pub proof fn lemma_wrap_range(x: int)
    ensures
        i32::MIN <= wrap(x) <= i32::MAX,
        i32::MIN <= x <= i32::MAX ==> wrap(x) == x,
{
}

/// Wrapping an operand first does not change a wrapped sum.
pub proof fn lemma_wrap_absorbs(x: int, y: int)
    ensures
        wrap(wrap(x) + y) == wrap(x + y),
        wrap(x + wrap(y)) == wrap(x + y),
{
}

/// Wrapping addition is commutative: the order of the operands does not
/// matter, whether or not the exact sum fits.
pub proof fn lemma_add_commutative(a: i32, b: i32)
    ensures
        wrap(a + b) == wrap(b + a),
{
}

/// Wrapping addition is associative: `(a + b) + c` and `a + (b + c)` wrap to
/// the same value, whether or not any of the exact sums fits. Where the exact
/// sum of the three fits, that value is the exact sum.
pub proof fn lemma_add_associative(a: i32, b: i32, c: i32)
    ensures
        wrap(wrap(a + b) + c) == wrap(a + wrap(b + c)),
        i32::MIN <= a + b + c <= i32::MAX ==> wrap(wrap(a + b) + c) == a + b + c,
{
    lemma_wrap_absorbs(a + b, c as int);
    lemma_wrap_absorbs(a as int, b + c);
}

} // verus!
