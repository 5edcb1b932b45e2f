use vstd::prelude::*;
use vstd::arithmetic::power2::pow2;
use crate::backend::BasicFloat;

verus! {

/// A saturating 64-bit integer backend.
///
/// Arithmetic is exact while results fit and clamps to the representable
/// range otherwise, the analogue of a fixed-width number line with its two
/// infinities at the ends.  Division by zero saturates toward the sign of
/// the dividend.  The square root and logarithm are the integer floor
/// forms; the correction terms `exp_m1` and `sinh` take their
/// small-argument linear form, the regime the estimator's asymptotic
/// branch is built on.  The backend gives the generic engine and
/// estimator a fully verified instantiation with deterministic results.
#[derive(Clone, Copy, PartialEq, Eq, Structural, Debug)]
pub struct SatI64 {
    pub v: i64,
}

/// Clamps a model value to the representable range.
pub open spec fn sat(x: int) -> int {
    if x > i64::MAX as int {
        i64::MAX as int
    } else if x < i64::MIN as int {
        i64::MIN as int
    } else {
        x
    }
}

/// The magnitude of a model value.
pub open spec fn iabs(a: int) -> int {
    if a < 0 {
        -a
    } else {
        a
    }
}

/// Division truncated toward zero, as machine division rounds.
pub open spec fn tdiv(a: int, b: int) -> int {
    if (a < 0) != (b < 0) {
        -(iabs(a) / iabs(b))
    } else {
        iabs(a) / iabs(b)
    }
}

/// The integer floor square root, by counting up.
pub open spec fn isqrt_spec(a: nat) -> nat
    decreases a,
{
    if a == 0 {
        0
    } else {
        let p = isqrt_spec((a - 1) as nat);
        if (p + 1) * (p + 1) <= a {
            p + 1
        } else {
            p
        }
    }
}

/// The floor square root is characterized by bracketing squares.
pub proof fn lemma_isqrt_bounds(a: nat)
    ensures
        isqrt_spec(a) * isqrt_spec(a) <= a,
        a < (isqrt_spec(a) + 1) * (isqrt_spec(a) + 1),
    decreases a,
{
    if a > 0 {
        lemma_isqrt_bounds((a - 1) as nat);
        let p = isqrt_spec((a - 1) as nat);
        assert(p * p <= a - 1);
        assert(a - 1 < (p + 1) * (p + 1));
        if (p + 1) * (p + 1) <= a {
            assert(isqrt_spec(a) == p + 1);
            assert(a <= (p + 1) * (p + 1));
            assert((p + 1) * (p + 1) < (p + 2) * (p + 2)) by (nonlinear_arith);
            assert(isqrt_spec(a) * isqrt_spec(a) == (p + 1) * (p + 1));
            assert((isqrt_spec(a) + 1) * (isqrt_spec(a) + 1) == (p + 2) * (p + 2));
        } else {
            assert(isqrt_spec(a) == p);
            assert(isqrt_spec(a) * isqrt_spec(a) == p * p);
            assert((isqrt_spec(a) + 1) * (isqrt_spec(a) + 1) == (p + 1) * (p + 1));
        }
    } else {
        let s = isqrt_spec(a);
        assert(s == 0);
        assert((s + 1) * (s + 1) == 1) by (nonlinear_arith)
            requires
                s == 0,
        ;
    }
}

/// Any value bracketed by consecutive squares is the floor square root.
pub proof fn lemma_isqrt_unique(a: nat, r: nat)
    requires
        r * r <= a,
        a < (r + 1) * (r + 1),
    ensures
        r == isqrt_spec(a),
{
    lemma_isqrt_bounds(a);
    let s = isqrt_spec(a);
    if r < s {
        assert((r + 1) * (r + 1) <= s * s) by (nonlinear_arith)
            requires
                r + 1 <= s,
        ;
    }
    if s < r {
        assert((s + 1) * (s + 1) <= r * r) by (nonlinear_arith)
            requires
                s + 1 <= r,
        ;
    }
}

/// The integer floor base-two logarithm; zero below two.
pub open spec fn ilog2_spec(a: nat) -> nat
    decreases a,
{
    if a < 2 {
        0
    } else {
        1 + ilog2_spec(a / 2)
    }
}

/// One halving step of the logarithm loop keeps the power-of-two budget
/// within the starting value and the exponent within the word size.
proof fn lemma_pow2_step_bound(e: nat, v: nat, orig: nat)
    requires
        pow2(e) * v <= orig,
        v >= 2,
        orig < 0x8000_0000_0000_0000,
        e <= 63,
    ensures
        pow2(e + 1) * (v / 2) <= orig,
        e + 1 <= 63,
{
    vstd::arithmetic::power2::lemma2_to64();
    vstd::arithmetic::power2::lemma_pow2_unfold(e + 1);
    let h = v / 2;
    assert(h >= 1);
    assert(2 * h <= v);
    assert(pow2(e + 1) * h <= pow2(e) * v) by (nonlinear_arith)
        requires
            pow2(e + 1) == 2 * pow2(e),
            2 * h <= v,
    ;
    assert(pow2(e + 1) <= pow2(e + 1) * h) by (nonlinear_arith)
        requires
            h >= 1,
    ;
    if e + 1 > 63 {
        vstd::arithmetic::power2::lemma_pow2_strictly_increases(63, e + 1);
        assert(false);
    }
}

impl BasicFloat for SatI64 {
    open spec fn m(self) -> int {
        self.v as int
    }

    open spec fn add_m(a: int, b: int) -> int {
        sat(a + b)
    }

    open spec fn sub_m(a: int, b: int) -> int {
        sat(a - b)
    }

    open spec fn mul_m(a: int, b: int) -> int {
        sat(a * b)
    }

    open spec fn div_m(a: int, b: int) -> int {
        if b == 0 {
            if a >= 0 {
                i64::MAX as int
            } else {
                i64::MIN as int
            }
        } else {
            sat(tdiv(a, b))
        }
    }

    open spec fn neg_m(a: int) -> int {
        sat(-a)
    }

    open spec fn lt_m(a: int, b: int) -> bool {
        a < b
    }

    open spec fn sqrt_m(a: int) -> int {
        if a <= 0 {
            0
        } else {
            isqrt_spec(a as nat) as int
        }
    }

    open spec fn ln_m(a: int) -> int {
        if a <= 0 {
            i64::MIN as int
        } else {
            ilog2_spec(a as nat) as int
        }
    }

    open spec fn exp_m1_m(a: int) -> int {
        a
    }

    open spec fn sinh_m(a: int) -> int {
        a
    }

    open spec fn exp2_m(e: int) -> int {
        if e < 0 {
            0
        } else {
            sat(pow2(e as nat) as int)
        }
    }

    open spec fn default_radius_m() -> int {
        55108
    }

    proof fn lemma_zero_ops() {
        assert forall|a: int| Self::mul_m(a, 0) == 0 && Self::mul_m(0, a) == 0 by {
            assert(a * 0 == 0);
            assert(0 * a == 0);
        }
    }

    fn dup(&self) -> (r: Self) {
        SatI64 { v: self.v }
    }

    fn zero_like(&self) -> (r: Self) {
        SatI64 { v: 0 }
    }

    fn one_like(&self) -> (r: Self) {
        SatI64 { v: 1 }
    }

    fn two_like(&self) -> (r: Self) {
        SatI64 { v: 2 }
    }

    fn add(&self, o: &Self) -> (r: Self) {
        let s: i128 = self.v as i128 + o.v as i128;
        if s > i64::MAX as i128 {
            SatI64 { v: i64::MAX }
        } else if s < i64::MIN as i128 {
            SatI64 { v: i64::MIN }
        } else {
            SatI64 { v: s as i64 }
        }
    }

    fn sub(&self, o: &Self) -> (r: Self) {
        let s: i128 = self.v as i128 - o.v as i128;
        if s > i64::MAX as i128 {
            SatI64 { v: i64::MAX }
        } else if s < i64::MIN as i128 {
            SatI64 { v: i64::MIN }
        } else {
            SatI64 { v: s as i64 }
        }
    }

    fn mul(&self, o: &Self) -> (r: Self) {
        proof {
            assert(-0x8000_0000_0000_0000 * 0x8000_0000_0000_0000 <= self.v as int * o.v as int
                <= 0x8000_0000_0000_0000 * 0x8000_0000_0000_0000) by (nonlinear_arith)
                requires
                    -0x8000_0000_0000_0000 <= self.v as int <= 0x7fff_ffff_ffff_ffff,
                    -0x8000_0000_0000_0000 <= o.v as int <= 0x7fff_ffff_ffff_ffff,
            ;
        }
        let s: i128 = self.v as i128 * o.v as i128;
        if s > i64::MAX as i128 {
            SatI64 { v: i64::MAX }
        } else if s < i64::MIN as i128 {
            SatI64 { v: i64::MIN }
        } else {
            SatI64 { v: s as i64 }
        }
    }

    fn div(&self, o: &Self) -> (r: Self) {
        if o.v == 0 {
            if self.v >= 0 {
                SatI64 { v: i64::MAX }
            } else {
                SatI64 { v: i64::MIN }
            }
        } else {
            let ua: u64 = if self.v < 0 {
                (-(self.v as i128)) as u64
            } else {
                self.v as u64
            };
            let ub: u64 = if o.v < 0 {
                (-(o.v as i128)) as u64
            } else {
                o.v as u64
            };
            let q: u64 = ua / ub;
            if (self.v < 0) != (o.v < 0) {
                SatI64 { v: (-(q as i128)) as i64 }
            } else {
                if q > i64::MAX as u64 {
                    SatI64 { v: i64::MAX }
                } else {
                    SatI64 { v: q as i64 }
                }
            }
        }
    }

    fn neg(&self) -> (r: Self) {
        if self.v == i64::MIN {
            SatI64 { v: i64::MAX }
        } else {
            SatI64 { v: -self.v }
        }
    }

    fn lt(&self, o: &Self) -> (r: bool) {
        self.v < o.v
    }

    fn sqrt(&self) -> (r: Self) {
        if self.v <= 0 {
            return SatI64 { v: 0 };
        }
        let a: u64 = self.v as u64;
        let mut lo: u64 = 0;
        let mut hi: u64 = 3037000500;
        proof {
            assert(3037000500int * 3037000500int > a as int);
        }
        while lo + 1 < hi
            invariant
                lo < hi <= 3037000500,
                lo as int * lo as int <= a as int,
                (a as int) < (hi as int) * (hi as int),
            decreases hi - lo,
        {
            let mid: u64 = lo + (hi - lo) / 2;
            proof {
                assert(mid as int * mid as int <= 3037000500int * 3037000500int)
                    by (nonlinear_arith)
                    requires
                        0 <= mid as int <= 3037000500int,
                ;
            }
            let sq: u64 = mid * mid;
            if sq <= a {
                lo = mid;
            } else {
                hi = mid;
            }
        }
        proof {
            lemma_isqrt_unique(a as nat, lo as nat);
        }
        SatI64 { v: lo as i64 }
    }

    fn ln(&self) -> (r: Self) {
        if self.v <= 0 {
            return SatI64 { v: i64::MIN };
        }
        let orig: u64 = self.v as u64;
        let mut v: u64 = orig;
        let mut e: u64 = 0;
        proof {
            vstd::arithmetic::power2::lemma2_to64();
        }
        while v >= 2
            invariant
                1 <= v,
                ilog2_spec(orig as nat) == e + ilog2_spec(v as nat),
                pow2(e as nat) * v as nat <= orig as nat,
                orig < 0x8000_0000_0000_0000,
                e <= 63,
            decreases v,
        {
            proof {
                lemma_pow2_step_bound(e as nat, v as nat, orig as nat);
                assert(ilog2_spec(v as nat) == 1 + ilog2_spec((v as nat) / 2));
            }
            v = v / 2;
            e = e + 1;
        }
        proof {
            assert(ilog2_spec(v as nat) == 0);
        }
        SatI64 { v: e as i64 }
    }

    fn exp_m1(&self) -> (r: Self) {
        SatI64 { v: self.v }
    }

    fn sinh(&self) -> (r: Self) {
        SatI64 { v: self.v }
    }

    fn exp2(&self, e: i64) -> (r: Self) {
        if e < 0 {
            return SatI64 { v: 0 };
        }
        let mut k: i64 = 0;
        let mut r: i64 = 1;
        proof {
            vstd::arithmetic::power2::lemma2_to64();
        }
        while k < e
            invariant
                0 <= k <= e,
                r as int == sat(pow2(k as nat) as int),
                r >= 1,
            decreases e - k,
        {
            proof {
                assert(pow2((k + 1) as nat) == 2 * pow2(k as nat)) by {
                    vstd::arithmetic::power2::lemma_pow2_unfold((k + 1) as nat);
                }
            }
            if r > i64::MAX / 2 {
                proof {
                    assert(pow2((k + 1) as nat) as int > i64::MAX as int) by (nonlinear_arith)
                        requires
                            pow2((k + 1) as nat) == 2 * pow2(k as nat),
                            pow2(k as nat) as int >= sat(pow2(k as nat) as int),
                            sat(pow2(k as nat) as int) > i64::MAX as int / 2,
                    ;
                }
                r = i64::MAX;
            } else {
                r = r * 2;
            }
            k = k + 1;
        }
        SatI64 { v: r }
    }

    fn default_radius_like(&self) -> (r: Self) {
        SatI64 { v: 55108 }
    }
}

} // verus!
