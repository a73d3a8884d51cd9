//! Exact 256-bit products and comparisons of 128-bit integers, for comparing
//! ratios (such as two mean round-trip times) without rounding.
use vstd::prelude::*;

verus! {

/// 2^64.
pub const B64: u128 = 0x1_0000_0000_0000_0000;

/// 2^128.
pub open spec fn b128() -> nat {
    0x1_0000_0000_0000_0000_0000_0000_0000_0000nat
}

/// A 256-bit unsigned value as a high and a low 128-bit half.
#[derive(Clone, Copy, Debug, PartialEq, Eq, Structural)]
pub struct U256 {
    pub hi: u128,
    pub lo: u128,
}

impl U256 {
    /// The number the two halves stand for.
    pub open spec fn value(self) -> nat {
        self.hi as nat * b128() + self.lo as nat
    }
}

proof fn lemma_halves_product(x: int, y: int)
    requires
        0 <= x < 0x1_0000_0000_0000_0000,
        0 <= y < 0x1_0000_0000_0000_0000,
    ensures
        0 <= x * y <= 0xffff_ffff_ffff_fffe_0000_0000_0000_0001,
{
    assert(0 <= x * y <= 0xffff_ffff_ffff_ffff * 0xffff_ffff_ffff_ffff) by (nonlinear_arith)
        requires
            0 <= x < 0x1_0000_0000_0000_0000,
            0 <= y < 0x1_0000_0000_0000_0000,
    ;
}

/// The exact product of two 128-bit values.
pub fn mul_wide(a: u128, b: u128) -> (r: U256)
    ensures
        r.value() == a as nat * b as nat,
{
    let a1 = a / B64;
    let a0 = a % B64;
    let b1 = b / B64;
    let b0 = b % B64;
    proof {
        lemma_halves_product(a0 as int, b0 as int);
        lemma_halves_product(a0 as int, b1 as int);
        lemma_halves_product(a1 as int, b0 as int);
        lemma_halves_product(a1 as int, b1 as int);
    }
    let p00 = a0 * b0;
    let p01 = a0 * b1;
    let p10 = a1 * b0;
    let p11 = a1 * b1;
    let t = p00 / B64 + p01 % B64 + p10 % B64;
    let lo = (t % B64) * B64 + p00 % B64;
    let ghost bb: int = 0x1_0000_0000_0000_0000;
    let ghost hv: int = p11 + p01 / B64 + p10 / B64 + t / B64;
    proof {
        let ai = a as int;
        let bi = b as int;
        assert(ai == a1 * bb + a0);
        assert(bi == b1 * bb + b0);
        assert(ai * bi == p11 * (bb * bb) + (p01 + p10) * bb + p00) by (nonlinear_arith)
            requires
                ai == a1 * bb + a0,
                bi == b1 * bb + b0,
                p00 == a0 * b0,
                p01 == a0 * b1,
                p10 == a1 * b0,
                p11 == a1 * b1,
        ;
        assert(bb * bb == b128());
        assert(p00 == (p00 / B64) * bb + p00 % B64);
        assert(p01 == (p01 / B64) * bb + p01 % B64);
        assert(p10 == (p10 / B64) * bb + p10 % B64);
        assert(t == (t / B64) * bb + t % B64);
        assert(ai * bi == hv * b128() + lo) by (nonlinear_arith)
            requires
                ai * bi == p11 * (bb * bb) + (p01 + p10) * bb + p00,
                bb * bb == b128(),
                p00 == (p00 / B64) * bb + p00 % B64,
                p01 == (p01 / B64) * bb + p01 % B64,
                p10 == (p10 / B64) * bb + p10 % B64,
                t == p00 / B64 + p01 % B64 + p10 % B64,
                t == (t / B64) * bb + t % B64,
                lo == (t % B64) * bb + p00 % B64,
                hv == p11 + p01 / B64 + p10 / B64 + t / B64,
        ;
        assert(ai * bi < b128() * b128()) by (nonlinear_arith)
            requires
                0 <= ai < b128(),
                0 <= bi < b128(),
        ;
        assert(hv < b128()) by (nonlinear_arith)
            requires
                ai * bi == hv * b128() + lo,
                lo >= 0,
                ai * bi < b128() * b128(),
                b128() > 0,
        ;
    }
    let hi = p11 + p01 / B64 + p10 / B64 + t / B64;
    U256 { hi, lo }
}

/// The exact sum of two 256-bit values that fits in 256 bits.
pub fn add_wide(x: U256, y: U256) -> (r: U256)
    requires
        x.value() + y.value() < b128() * b128(),
    ensures
        r.value() == x.value() + y.value(),
{
    if x.lo <= u128::MAX - y.lo {
        assert(x.hi as nat * b128() + y.hi as nat * b128() == (x.hi + y.hi) * b128()) by (nonlinear_arith);
        assert(x.hi + y.hi < b128()) by (nonlinear_arith)
            requires
                x.hi as nat * b128() + y.hi as nat * b128() == (x.hi + y.hi) * b128(),
                x.hi as nat * b128() + x.lo + y.hi as nat * b128() + y.lo < b128() * b128(),
                x.lo >= 0,
                y.lo >= 0,
        ;
        U256 { hi: x.hi + y.hi, lo: x.lo + y.lo }
    } else {
        let lo = x.lo - (u128::MAX - y.lo) - 1;
        assert(x.hi as nat * b128() + y.hi as nat * b128() + b128() == (x.hi + y.hi + 1) * b128())
            by (nonlinear_arith);
        assert(x.hi + y.hi + 1 < b128()) by (nonlinear_arith)
            requires
                x.hi as nat * b128() + y.hi as nat * b128() + b128() == (x.hi + y.hi + 1) * b128(),
                x.hi as nat * b128() + x.lo + y.hi as nat * b128() + y.lo < b128() * b128(),
                x.lo + y.lo >= b128(),
                lo >= 0,
                lo == x.lo + y.lo - b128(),
        ;
        U256 { hi: x.hi + y.hi + 1, lo }
    }
}

/// The exact difference of two 256-bit values, the first not the smaller.
pub fn sub_wide(x: U256, y: U256) -> (r: U256)
    requires
        x.value() >= y.value(),
    ensures
        r.value() == x.value() - y.value(),
{
    if x.lo >= y.lo {
        assert(x.hi >= y.hi) by (nonlinear_arith)
            requires
                x.hi as nat * b128() + x.lo as nat >= y.hi as nat * b128() + y.lo as nat,
                x.lo < b128(),
                y.lo >= 0,
        ;
        assert((x.hi - y.hi) * b128() == x.hi as nat * b128() - y.hi as nat * b128()) by (nonlinear_arith);
        U256 { hi: x.hi - y.hi, lo: x.lo - y.lo }
    } else {
        assert(x.hi > y.hi) by (nonlinear_arith)
            requires
                x.hi as nat * b128() + x.lo as nat >= y.hi as nat * b128() + y.lo as nat,
                x.lo < y.lo,
        ;
        assert((x.hi - y.hi - 1) * b128() == x.hi as nat * b128() - y.hi as nat * b128() - b128())
            by (nonlinear_arith);
        let lo = x.lo + (u128::MAX - y.lo) + 1;
        U256 { hi: x.hi - y.hi - 1, lo }
    }
}

/// Whether `x` is at least `y`.
pub fn ge_wide(x: U256, y: U256) -> (b: bool)
    ensures
        b == (x.value() >= y.value()),
{
    if x.hi != y.hi {
        assert(x.hi > y.hi ==> x.value() >= y.value()) by (nonlinear_arith)
            requires
                x.value() == x.hi as nat * b128() + x.lo as nat,
                y.value() == y.hi as nat * b128() + y.lo as nat,
                y.lo < b128(),
        ;
        assert(x.hi < y.hi ==> x.value() < y.value()) by (nonlinear_arith)
            requires
                x.value() == x.hi as nat * b128() + x.lo as nat,
                y.value() == y.hi as nat * b128() + y.lo as nat,
                x.lo < b128(),
        ;
        x.hi > y.hi
    } else {
        x.lo >= y.lo
    }
}

} // verus!
