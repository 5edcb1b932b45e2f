use mandel::{build_params, distance, m_iter_f, BasicFloat};

/// A double-precision backend, defined here the way an embedding program
/// would: the library's arithmetic contract realized by native floats.
#[derive(Clone, Copy, Debug)]
struct D(f64);

fn exp2_exact(e: i64) -> f64 {
    // Exact power-of-two construction through the exponent field, an
    // ldexp-style primitive rather than general exponentiation.
    f64::from_bits(((1023 + e) as u64) << 52)
}

impl BasicFloat for D {
    fn lemma_zero_ops() {}
    fn dup(&self) -> D {
        *self
    }
    fn zero_like(&self) -> D {
        D(0.0)
    }
    fn one_like(&self) -> D {
        D(1.0)
    }
    fn two_like(&self) -> D {
        D(2.0)
    }
    fn add(&self, o: &D) -> D {
        D(self.0 + o.0)
    }
    fn sub(&self, o: &D) -> D {
        D(self.0 - o.0)
    }
    fn mul(&self, o: &D) -> D {
        D(self.0 * o.0)
    }
    fn div(&self, o: &D) -> D {
        D(self.0 / o.0)
    }
    fn neg(&self) -> D {
        D(-self.0)
    }
    fn lt(&self, o: &D) -> bool {
        self.0 < o.0
    }
    fn sqrt(&self) -> D {
        D(self.0.sqrt())
    }
    fn ln(&self) -> D {
        D(self.0.ln())
    }
    fn exp_m1(&self) -> D {
        D(self.0.exp_m1())
    }
    fn sinh(&self) -> D {
        D(self.0.sinh())
    }
    fn exp2(&self, e: i64) -> D {
        D(exp2_exact(e))
    }
    fn default_radius_like(&self) -> D {
        D(f64::MAX.sqrt().sqrt())
    }
}

fn d(v: f64) -> D {
    D(v)
}

#[test]
fn double_origin_sentinel() {
    let p = build_params(d(0.0), d(0.0), None, 100_000, d(1.0e40));
    let (n, z2, d2) = m_iter_f(&p);
    assert_eq!(n, -1);
    assert_eq!(z2.0, 0.0);
    assert_eq!(d2.0, 0.0);
}

#[test]
fn double_large_constant_escapes() {
    // |c| > 2 must escape within a handful of iterations.
    let p = build_params(d(0.0), d(3.0), None, 100_000, d(1.0e40));
    let (n, _, _) = m_iter_f(&p);
    assert!(n != -1);
    assert!(n < 20, "n = {}", n);
    let q = build_params(d(-2.5), d(0.0), None, 100_000, d(1.0e40));
    let (m, _, _) = m_iter_f(&q);
    assert!(m != -1);
    assert!(m < 20, "m = {}", m);
}

#[test]
fn double_periodic_point_stays_bounded() {
    // c = -1 is superattracting of period two: never escapes.
    let p = build_params(d(-1.0), d(0.0), None, 10_000, d(1.0e40));
    let (n, z2, d2) = m_iter_f(&p);
    assert_eq!(n, -1);
    assert_eq!(z2.0, 0.0);
    assert_eq!(d2.0, 0.0);
}

#[test]
fn double_radius_not_clamped_below_default() {
    let p = build_params(d(0.0), d(0.0), None, 1, d(1.0e40));
    assert_eq!(p.rad2.0, 1.0e40);
}

#[test]
fn estimator_branch_continuity() {
    // At the asymptotic threshold the second estimate is the same formula
    // on both sides, and the first and third agree with it to double
    // rounding because the correction argument is below one ulp.
    let z2 = 5.0;
    let d2v = 2.0;
    let (a65, b65, c65) = distance(65, d(z2), d(d2v));
    let (a66, b66, c66) = distance(66, d(z2), d(d2v));
    assert_eq!(b65.0, b66.0);
    assert_eq!(a66.0, b66.0);
    assert_eq!(c66.0, b66.0);
    let rel = |x: f64, y: f64| ((x - y) / y).abs();
    assert!(rel(a65.0, b65.0) < 1.0e-12, "first {} second {}", a65.0, b65.0);
    assert!(rel(c65.0, b65.0) < 1.0e-12, "third {} second {}", c65.0, b65.0);
}

#[test]
fn estimator_sentinel_zero() {
    let (a, b, c) = distance(-1, d(7.0), d(3.0));
    assert_eq!((a.0, b.0, c.0), (0.0, 0.0, 0.0));
}

#[test]
fn vector_sampling_ratio_converges() {
    // Walk toward a boundary point along the normal: the set contains
    // the real segment through the base point, the approach is
    // perpendicular to it, and the first distance estimate over the
    // expected linear scale should settle toward one.
    let bx = -1.9;
    let by = 0.0;
    let (vx, vy) = (0.0, 1.0);
    let mag = 1.0;
    let mult = 0.5f64;
    let mut ratios = Vec::new();
    for i in 0..21 {
        let vmul = mult.powi(i);
        let x = bx + vx * vmul;
        let y = by + vy * vmul;
        let p = build_params(d(x), d(y), None, 10_000_000, d(1.0e40));
        let (n, z2, d2v) = m_iter_f(&p);
        assert!(n != -1, "step {} did not escape", i);
        let (dist1, _, _) = distance(n, d(z2.0), d(d2v.0));
        let ratio = dist1.0 / (vmul * mag);
        println!("step {} n {} ratio {}", i, n, ratio);
        assert!(ratio.is_finite());
        ratios.push(ratio);
    }
    // Over the last five steps the ratio approaches one monotonically
    // and does not diverge or oscillate.
    for i in 16..21 {
        let r = ratios[i];
        assert!(0.0 < r && r < 2.0, "step {} ratio {}", i, r);
        if i > 16 {
            let dev_prev = (ratios[i - 1] - 1.0f64).abs();
            let dev = (r - 1.0f64).abs();
            assert!(dev <= dev_prev + 0.02, "step {}: {} then {}", i, ratios[i - 1], r);
        }
    }
    assert!((ratios[20] - 1.0f64).abs() < 0.35, "final ratio {}", ratios[20]);
}

/// A single-width backend for the consistency check.
#[derive(Clone, Copy, Debug)]
struct S(f32);

impl BasicFloat for S {
    fn lemma_zero_ops() {}
    fn dup(&self) -> S {
        *self
    }
    fn zero_like(&self) -> S {
        S(0.0)
    }
    fn one_like(&self) -> S {
        S(1.0)
    }
    fn two_like(&self) -> S {
        S(2.0)
    }
    fn add(&self, o: &S) -> S {
        S(self.0 + o.0)
    }
    fn sub(&self, o: &S) -> S {
        S(self.0 - o.0)
    }
    fn mul(&self, o: &S) -> S {
        S(self.0 * o.0)
    }
    fn div(&self, o: &S) -> S {
        S(self.0 / o.0)
    }
    fn neg(&self) -> S {
        S(-self.0)
    }
    fn lt(&self, o: &S) -> bool {
        self.0 < o.0
    }
    fn sqrt(&self) -> S {
        S(self.0.sqrt())
    }
    fn ln(&self) -> S {
        S(self.0.ln())
    }
    fn exp_m1(&self) -> S {
        S(self.0.exp_m1())
    }
    fn sinh(&self) -> S {
        S(self.0.sinh())
    }
    fn exp2(&self, e: i64) -> S {
        S(f32::from_bits(((127 + e) as u32) << 23))
    }
    fn default_radius_like(&self) -> S {
        S(f32::MAX.sqrt().sqrt())
    }
}

#[test]
fn backend_consistency_on_representable_orbit() {
    // A short escaping orbit whose values are all exactly representable
    // at single width: both fixed-width backends must agree on the
    // iteration count exactly and on the exit state to a tight relative
    // tolerance (here: exactly).
    let pd = build_params(d(0.0), d(3.0), None, 1_000, d(1.0e3));
    let ps = build_params(S(0.0), S(3.0), None, 1_000, S(1.0e3));
    let (nd, zd, dd) = m_iter_f(&pd);
    let (ns, zs, ds) = m_iter_f(&ps);
    assert_eq!(nd, ns);
    assert!(nd != -1);
    let rel = |a: f64, b: f64| ((a - b) / b).abs();
    assert!(rel(zs.0 as f64, zd.0) < 1.0e-10);
    assert!(rel(ds.0 as f64, dd.0) < 1.0e-10);
}
