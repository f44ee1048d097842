use vstd::prelude::*;

verus! {

/// The remainder of `a` by `b` as Rust's `%` computes it: it takes the sign
/// of `a`, and its magnitude is `|a|` modulo `|b|`.
pub open spec fn trunc_rem(a: int, b: int) -> int {
    if a >= 0 { a % b } else { -((-a) % b) }
}

/// The value `ceil_mul` returns: `n1` raised to the next multiple of `n2`
/// (for non-negative `n1` and positive `n2`), `n1` itself when `n2` is zero.
pub open spec fn ceil_mul_spec(n1: int, n2: int) -> int {
    if n2 == 0 {
        n1
    } else if trunc_rem(n1, n2) == 0 {
        n1
    } else {
        n1 + (n2 - trunc_rem(n1, n2))
    }
}

/// The value `floor_mul` returns: `n1` lowered to a multiple of `n2`, toward
/// zero; `n1` itself when `n2` is zero.
pub open spec fn floor_mul_spec(n1: int, n2: int) -> int {
    if n2 == 0 {
        n1
    } else {
        n1 - trunc_rem(n1, n2)
    }
}

pub fn ceil_mul(n1: i32, n2: i32) -> (r: i32)
    requires
        !(n1 == i32::MIN && n2 == -1),
        n2 == 0 || i32::MIN <= n2 - trunc_rem(n1 as int, n2 as int) <= i32::MAX,
        i32::MIN <= ceil_mul_spec(n1 as int, n2 as int) <= i32::MAX,
    ensures
        r == ceil_mul_spec(n1 as int, n2 as int),
{
    if n2 == 0 {
        return n1;
    }
    let remainder = n1 % n2;
    if remainder == 0 {
        return n1;
    }
    n1 + (n2 - remainder)
}

pub fn floor_mul(n1: i32, n2: i32) -> (r: i32)
    requires
        !(n1 == i32::MIN && n2 == -1),
    ensures
        r == floor_mul_spec(n1 as int, n2 as int),
{
    if n2 == 0 {
        return n1;
    }
    let remainder = n1 % n2;
    if remainder == 0 {
        return n1;
    }
    n1 - remainder
}

} // verus!
