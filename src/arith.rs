//! Exact integer arithmetic for proportional shares: `floor(x * y / d)`
//! computed without a wider integer type.
use vstd::prelude::*;

verus! {

/// `floor(x * y / d)` over mathematical integers.
pub open spec fn mul_div_spec(x: int, y: int, d: int) -> int {
    x * y / d
}

/// A quotient/remainder pair that sums to at most `x * y` (with `x <= d`)
/// has a quotient of at most `y`.
proof fn lemma_quotient_bound(q: int, r: int, d: int, s: int, x: int, y: int)
    requires
        q * d + r == s,
        r >= 0,
        d > 0,
        s <= x * y,
        0 <= x <= d,
        y >= 0,
    ensures
        q <= y,
{
    assert(x * y <= d * y) by (nonlinear_arith)
        requires
            0 <= x <= d,
            y >= 0,
    ;
    assert(q <= y) by (nonlinear_arith)
        requires
            q * d <= d * y,
            d > 0,
    ;
}

/// The floor of `s / d` for `s == q * d + r` with `0 <= r < d`.
proof fn lemma_div_of_parts(q: int, r: int, d: int)
    requires
        0 <= r < d,
    ensures
        (q * d + r) / d == q,
{
    assert((q * d + r) / d == q) by (nonlinear_arith)
        requires
            0 <= r < d,
    ;
}

/// Computes `floor(x * y / d)` exactly for `x <= d`, where the product
/// itself may not fit in 128 bits. The result never exceeds `y`.
pub fn mul_div_floor(x: u128, y: u128, d: u128) -> (r: u128)
    requires
        d > 0,
        x <= d,
    ensures
        r as int == mul_div_spec(x as int, y as int, d as int),
        r <= y,
{
    // Shift-and-add over the bits of `x`: `cq * d + cr` is the part of the
    // product gathered so far, `bq * d + br` is `y` times the current power
    // of two; both remainders stay below `d`.
    let ghost total: int = x as int * y as int;
    let mut n: u128 = x;
    let mut bq: u128 = y / d;
    let mut br: u128 = y % d;
    let mut cq: u128 = 0;
    let mut cr: u128 = 0;
    proof {
        assert(y as int == (y / d) as int * d as int + (y % d) as int) by (nonlinear_arith)
            requires
                d > 0,
        ;
        assert(0 * d as int + 0 + x as int * (y as int) == total) by (nonlinear_arith)
            requires
                total == x as int * y as int,
        ;
    }
    while n > 0
        invariant
            d > 0,
            x <= d,
            total == x as int * y as int,
            br < d,
            cr < d,
            (cq as int * d as int + cr as int) + n as int * (bq as int * d as int + br as int)
                == total,
        decreases n,
    {
        let ghost b: int = bq as int * d as int + br as int;
        let ghost acc: int = cq as int * d as int + cr as int;
        let ghost n0: int = n as int;
        proof {
            assert(b >= 0 && acc >= 0) by (nonlinear_arith)
                requires
                    d > 0,
                    b == bq as int * d as int + br as int,
                    acc == cq as int * d as int + cr as int,
            ;
            assert(n0 * b >= b) by (nonlinear_arith)
                requires
                    n0 >= 1,
                    b >= 0,
            ;
        }
        let bit: u128 = n % 2;
        if bit == 1 {
            proof {
                assert(acc + b <= total);
            }
            if cr >= d - br {
                proof {
                    assert((cq as int + bq as int + 1) * d as int + (cr as int + br as int
                        - d as int) == acc + b) by (nonlinear_arith)
                        requires
                            acc == cq as int * d as int + cr as int,
                            b == bq as int * d as int + br as int,
                    ;
                    lemma_quotient_bound(
                        cq as int + bq as int + 1,
                        cr as int + br as int - d as int,
                        d as int,
                        acc + b,
                        x as int,
                        y as int,
                    );
                }
                cq = cq + bq + 1;
                cr = cr - (d - br);
            } else {
                proof {
                    assert((cq as int + bq as int) * d as int + (cr as int + br as int) == acc
                        + b) by (nonlinear_arith)
                        requires
                            acc == cq as int * d as int + cr as int,
                            b == bq as int * d as int + br as int,
                    ;
                    lemma_quotient_bound(
                        cq as int + bq as int,
                        cr as int + br as int,
                        d as int,
                        acc + b,
                        x as int,
                        y as int,
                    );
                }
                cq = cq + bq;
                cr = cr + br;
            }
        }
        let ghost acc1: int = cq as int * d as int + cr as int;
        n = n / 2;
        proof {
            if bit == 1 {
                assert(acc1 == acc + b);
            } else {
                assert(acc1 == acc);
            }
            assert(acc1 == acc + bit as int * b) by (nonlinear_arith)
                requires
                    bit == 1 ==> acc1 == acc + b,
                    bit != 1 ==> acc1 == acc,
                    bit == 0 || bit == 1,
            ;
            assert(n0 == 2 * (n as int) + bit as int);
            assert(acc1 + (n as int) * (2 * b) == total) by (nonlinear_arith)
                requires
                    acc1 == acc + bit as int * b,
                    n0 == 2 * (n as int) + bit as int,
                    acc + n0 * b == total,
            ;
        }
        if n > 0 {
            proof {
                assert(acc1 >= 0) by (nonlinear_arith)
                    requires
                        d > 0,
                        acc1 == cq as int * d as int + cr as int,
                ;
                assert((n as int) * (2 * b) >= 2 * b) by (nonlinear_arith)
                    requires
                        n >= 1,
                        b >= 0,
                ;
            }
            if br >= d - br {
                proof {
                    assert((2 * bq as int + 1) * d as int + (2 * br as int - d as int) == 2 * b)
                        by (nonlinear_arith)
                        requires
                            b == bq as int * d as int + br as int,
                    ;
                    lemma_quotient_bound(
                        2 * bq as int + 1,
                        2 * br as int - d as int,
                        d as int,
                        2 * b,
                        x as int,
                        y as int,
                    );
                }
                bq = 2 * bq + 1;
                br = br - (d - br);
            } else {
                proof {
                    assert((2 * bq as int) * d as int + (2 * br as int) == 2 * b)
                        by (nonlinear_arith)
                        requires
                            b == bq as int * d as int + br as int,
                    ;
                    lemma_quotient_bound(
                        2 * bq as int,
                        2 * br as int,
                        d as int,
                        2 * b,
                        x as int,
                        y as int,
                    );
                }
                bq = 2 * bq;
                br = 2 * br;
            }
            proof {
                assert(bq as int * d as int + br as int == 2 * b);
            }
        }
        proof {
            if n == 0 {
                assert(n as int * (bq as int * d as int + br as int) == 0);
            }
        }
    }
    proof {
        lemma_div_of_parts(cq as int, cr as int, d as int);
        lemma_quotient_bound(cq as int, cr as int, d as int, total, x as int, y as int);
    }
    cq
}

} // verus!
