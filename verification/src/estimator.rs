use vstd::prelude::*;
use crate::backend::BasicFloat;

verus! {

/// The three distance estimates as models: zero for the sentinel; for
/// large counts the asymptotic form, where the correction terms collapse
/// to their arguments; otherwise the full forms with exact power-of-two
/// scale factors.
pub open spec fn distance_spec<T: BasicFloat>(n: int, z2: int, d2: int) -> (int, int, int) {
    if n == -1 {
        (0, 0, 0)
    } else {
        let half = T::div_m(1, 2);
        let sqr_rat = T::sqrt_m(T::div_m(z2, d2));
        let lnz2 = T::ln_m(z2);
        if n > 65 {
            let res = T::mul_m(T::mul_m(sqr_rat, lnz2), half);
            (res, res, res)
        } else {
            let p = T::exp2_m(n);
            let pinv = T::exp2_m(-n - 1);
            let g = T::mul_m(lnz2, pinv);
            let scaled = T::mul_m(sqr_rat, p);
            (
                T::mul_m(T::mul_m(T::exp_m1_m(T::mul_m(T::neg_m(2), g)), T::neg_m(scaled)), half),
                T::mul_m(T::mul_m(sqr_rat, lnz2), half),
                T::mul_m(T::sinh_m(g), scaled),
            )
        }
    }
}

/// Maps the engine's exit state to three independent boundary-distance
/// estimates.  All three are zero for the sentinel count.  Above the
/// asymptotic threshold the three estimates coincide; below it the first
/// and third carry higher-order corrections built on exact power-of-two
/// scale factors, and the second is the shared asymptotic form.
pub fn distance<T: BasicFloat>(n: i64, z2: T, d2: T) -> (r: (T, T, T))
    requires
        n >= -1,
    ensures
        r.0.m() == distance_spec::<T>(n as int, z2.m(), d2.m()).0,
        r.1.m() == distance_spec::<T>(n as int, z2.m(), d2.m()).1,
        r.2.m() == distance_spec::<T>(n as int, z2.m(), d2.m()).2,
{
    if n == -1 {
        let a = z2.zero_like();
        let b = z2.zero_like();
        let c = z2.zero_like();
        return (a, b, c);
    }
    let half = z2.one_like().div(&z2.two_like());
    let sqr_rat = z2.div(&d2).sqrt();
    let lnz2 = z2.ln();
    if n > 65 {
        let res = sqr_rat.mul(&lnz2).mul(&half);
        let res2 = res.dup();
        let res3 = res.dup();
        (res, res2, res3)
    } else {
        let p = z2.exp2(n);
        let pinv = z2.exp2(-n - 1);
        let g = lnz2.mul(&pinv);
        let scaled = sqr_rat.mul(&p);
        let first = z2.two_like().neg().mul(&g).exp_m1().mul(&scaled.neg()).mul(&half);
        let second = sqr_rat.mul(&lnz2).mul(&half);
        let third = g.sinh().mul(&scaled);
        (first, second, third)
    }
}

/// The second estimate does not depend on the iteration count at all: it
/// is the same asymptotic formula in both branches of the estimator, so
/// crossing the branch threshold cannot move it.
pub proof fn lemma_second_estimate_count_free<T: BasicFloat>(n1: int, n2: int, z2: int, d2: int)
    requires
        n1 >= 0,
        n2 >= 0,
    ensures
        distance_spec::<T>(n1, z2, d2).1 == distance_spec::<T>(n2, z2, d2).1,
{
}

} // verus!
