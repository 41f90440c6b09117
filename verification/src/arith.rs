//! Rust's truncating signed division, stated and computed.
use vstd::prelude::*;

verus! {

/// The magnitude of `a`.
pub open spec fn abs(a: int) -> int {
    if a < 0 {
        -a
    } else {
        a
    }
}

/// Division rounding toward zero, as Rust's `/` on signed integers does.
pub open spec fn tdiv(a: int, b: int) -> int {
    if (a < 0) != (b < 0) {
        -(abs(a) / abs(b))
    } else {
        abs(a) / abs(b)
    }
}

/// `a / b` on 64-bit signed integers.
pub fn div_trunc_i64(a: i64, b: i64) -> (r: i64)
    requires
        b != 0,
        !(a == i64::MIN && b == -1),
    ensures
        r == tdiv(a as int, b as int),
{
    let ua: u64 = if a < 0 {
        if a == i64::MIN {
            9223372036854775808u64
        } else {
            (-a) as u64
        }
    } else {
        a as u64
    };
    let ub: u64 = if b < 0 {
        if b == i64::MIN {
            9223372036854775808u64
        } else {
            (-b) as u64
        }
    } else {
        b as u64
    };
    let q: u64 = ua / ub;
    assert(q as int == abs(a as int) / abs(b as int));
    if (a < 0) != (b < 0) {
        assert(q <= 9223372036854775808u64) by (nonlinear_arith)
            requires
                q as int == ua as int / ub as int,
                ua <= 9223372036854775808u64,
                ub >= 1,
        ;
        if q == 9223372036854775808u64 {
            i64::MIN
        } else {
            -(q as i64)
        }
    } else {
        assert(q <= 9223372036854775807u64) by (nonlinear_arith)
            requires
                q as int == ua as int / ub as int,
                ua <= 9223372036854775808u64,
                ub >= 1,
                ua == 9223372036854775808u64 ==> ub >= 2,
        ;
        q as i64
    }
}

} // verus!
