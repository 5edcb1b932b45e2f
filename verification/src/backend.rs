use vstd::prelude::*;

verus! {

/// The arithmetic contract a numeric type must meet to drive the iteration
/// engine and the distance estimator.
///
/// Every executable operation is pinned to a spec-level model: `m` maps a
/// value to its mathematical model, and each operation's result model is a
/// fixed function (`add_m`, `mul_m`, ...) of the argument models.  The engine
/// and the estimator are verified once, generically, against these models;
/// a backend implemented in this crate proves its operations meet them.
///
/// `*_like` constructors take a witness value so that backends whose values
/// carry a working precision can mint constants at the right precision.
pub trait BasicFloat: Sized {
    /// The mathematical model of a value.  Every spec member carries a
    /// trivial default so that an embedding program can implement the
    /// executable operations alone; a backend verified in this crate
    /// overrides the models it is proved against.
    open spec fn m(self) -> int {
        0
    }

    /// Model of addition.
    open spec fn add_m(a: int, b: int) -> int {
        0
    }

    /// Model of subtraction.
    open spec fn sub_m(a: int, b: int) -> int {
        0
    }

    /// Model of multiplication.
    open spec fn mul_m(a: int, b: int) -> int {
        0
    }

    /// Model of division.
    open spec fn div_m(a: int, b: int) -> int {
        0
    }

    /// Model of negation.
    open spec fn neg_m(a: int) -> int {
        0
    }

    /// Model of the strict order used by the escape test.
    open spec fn lt_m(a: int, b: int) -> bool {
        false
    }

    /// Model of the square root.
    open spec fn sqrt_m(a: int) -> int {
        0
    }

    /// Model of the logarithm used by the estimator.
    open spec fn ln_m(a: int) -> int {
        0
    }

    /// Model of `exp(a) - 1`.
    open spec fn exp_m1_m(a: int) -> int {
        0
    }

    /// Model of the hyperbolic sine.
    open spec fn sinh_m(a: int) -> int {
        0
    }

    /// Model of the power-of-two scale factor (an `ldexp`-style primitive).
    open spec fn exp2_m(e: int) -> int {
        0
    }

    /// Model of the largest escape radius the backend accepts without
    /// overflow inside the iteration loop.
    open spec fn default_radius_m() -> int {
        0
    }

    /// Zero is absorbing for multiplication and neutral at the origin;
    /// the proof that the origin's orbit never moves rests on this.
    proof fn lemma_zero_ops()
        ensures
            Self::add_m(0, 0) == 0,
            Self::sub_m(0, 0) == 0,
            forall|a: int| Self::mul_m(a, 0) == 0 && Self::mul_m(0, a) == 0,
    ;

    fn dup(&self) -> (r: Self)
        ensures
            r.m() == self.m(),
    ;

    fn zero_like(&self) -> (r: Self)
        ensures
            r.m() == 0,
    ;

    fn one_like(&self) -> (r: Self)
        ensures
            r.m() == 1,
    ;

    fn two_like(&self) -> (r: Self)
        ensures
            r.m() == 2,
    ;

    fn add(&self, o: &Self) -> (r: Self)
        ensures
            r.m() == Self::add_m(self.m(), o.m()),
    ;

    fn sub(&self, o: &Self) -> (r: Self)
        ensures
            r.m() == Self::sub_m(self.m(), o.m()),
    ;

    fn mul(&self, o: &Self) -> (r: Self)
        ensures
            r.m() == Self::mul_m(self.m(), o.m()),
    ;

    fn div(&self, o: &Self) -> (r: Self)
        ensures
            r.m() == Self::div_m(self.m(), o.m()),
    ;

    fn neg(&self) -> (r: Self)
        ensures
            r.m() == Self::neg_m(self.m()),
    ;

    fn lt(&self, o: &Self) -> (r: bool)
        ensures
            r == Self::lt_m(self.m(), o.m()),
    ;

    fn sqrt(&self) -> (r: Self)
        ensures
            r.m() == Self::sqrt_m(self.m()),
    ;

    fn ln(&self) -> (r: Self)
        ensures
            r.m() == Self::ln_m(self.m()),
    ;

    fn exp_m1(&self) -> (r: Self)
        ensures
            r.m() == Self::exp_m1_m(self.m()),
    ;

    fn sinh(&self) -> (r: Self)
        ensures
            r.m() == Self::sinh_m(self.m()),
    ;

    fn exp2(&self, e: i64) -> (r: Self)
        ensures
            r.m() == Self::exp2_m(e as int),
    ;

    fn default_radius_like(&self) -> (r: Self)
        ensures
            r.m() == Self::default_radius_m(),
    ;
}

} // verus!
