use vstd::prelude::*;
use crate::backend::BasicFloat;

verus! {

/// The full parameter set of one escape-time query: starting coordinate,
/// constant parameter, iteration cap, squared escape radius and the flag
/// that selects the derivative seed for the Julia family.
pub struct MandelParams<T> {
    pub x: T,
    pub y: T,
    pub cx: T,
    pub cy: T,
    pub it: i64,
    pub rad2: T,
    pub julia: bool,
}

/// The models of one iteration state: position, derivative accumulator,
/// and the cached squares of the position.
pub ghost struct IterState {
    pub x: int,
    pub y: int,
    pub dx: int,
    pub dy: int,
    pub x2: int,
    pub y2: int,
}

/// The derivative seed: absent for the Julia family, one for the
/// Mandelbrot family where the constant is itself the starting coordinate.
pub open spec fn julia_term_m<T: BasicFloat>(p: MandelParams<T>) -> int {
    if p.julia {
        0
    } else {
        1
    }
}

/// The state before the first iteration.
pub open spec fn init_state<T: BasicFloat>(p: MandelParams<T>) -> IterState {
    IterState {
        x: p.x.m(),
        y: p.y.m(),
        dx: 1,
        dy: 0,
        x2: T::mul_m(p.x.m(), p.x.m()),
        y2: T::mul_m(p.y.m(), p.y.m()),
    }
}

/// One step of the recurrence: the derivative is propagated by the chain
/// rule, then the position moves to `z * z + c`, then the squares are
/// recomputed for the next escape test.
pub open spec fn step_state<T: BasicFloat>(s: IterState, cx: int, cy: int, j: int) -> IterState {
    let dxt = T::add_m(T::mul_m(s.dx, s.x), T::sub_m(j, T::mul_m(s.dy, s.y)));
    let dyn_ = T::mul_m(2, T::add_m(T::mul_m(s.dy, s.x), T::mul_m(s.dx, s.y)));
    let dxn = T::mul_m(2, dxt);
    let yn = T::add_m(T::mul_m(T::mul_m(2, s.x), s.y), cy);
    let xn = T::add_m(T::sub_m(s.x2, s.y2), cx);
    IterState {
        x: xn,
        y: yn,
        dx: dxn,
        dy: dyn_,
        x2: T::mul_m(xn, xn),
        y2: T::mul_m(yn, yn),
    }
}

/// The state after `k` iterations.
pub open spec fn state_at<T: BasicFloat>(p: MandelParams<T>, k: nat) -> IterState
    decreases k,
{
    if k == 0 {
        init_state(p)
    } else {
        step_state::<T>(state_at(p, (k - 1) as nat), p.cx.m(), p.cy.m(), julia_term_m(p))
    }
}

/// The escape test after `k` iterations: the orbit has escaped when the
/// squared modulus is no longer below the squared radius.
pub open spec fn escaped_at<T: BasicFloat>(p: MandelParams<T>, k: nat) -> bool {
    !T::lt_m(T::add_m(state_at(p, k).x2, state_at(p, k).y2), p.rad2.m())
}

/// The squared modulus reported on escape at step `k`.
pub open spec fn z2_at<T: BasicFloat>(p: MandelParams<T>, k: nat) -> int {
    T::add_m(state_at(p, k).x2, state_at(p, k).y2)
}

/// The squared derivative norm reported on escape at step `k`.
pub open spec fn d2_at<T: BasicFloat>(p: MandelParams<T>, k: nat) -> int {
    T::add_m(
        T::mul_m(state_at(p, k).dx, state_at(p, k).dx),
        T::mul_m(state_at(p, k).dy, state_at(p, k).dy),
    )
}

/// The escape-time iteration engine.
///
/// Runs the recurrence until the orbit escapes the squared radius or the
/// iteration cap is reached.  The result is either the sentinel
/// `(-1, zero, zero)` when no step below the cap escapes, or the first
/// escaping step together with the squared modulus and squared derivative
/// norm at that step, each pinned to its model.
pub fn m_iter_f<T: BasicFloat>(p: &MandelParams<T>) -> (r: (i64, T, T))
    ensures
        r.0 == -1 || 0 <= r.0 < p.it,
        r.0 == -1 ==> (forall|k: nat| k < p.it ==> !escaped_at::<T>(*p, k)) && r.1.m() == 0
            && r.2.m() == 0,
        r.0 != -1 ==> escaped_at::<T>(*p, r.0 as nat) && (forall|k: nat|
            k < r.0 as nat ==> !escaped_at::<T>(*p, k)) && r.1.m() == z2_at::<T>(*p, r.0 as nat)
            && r.2.m() == d2_at::<T>(*p, r.0 as nat),
{
    let mut i: i64 = 0;
    let mut x = p.x.dup();
    let mut y = p.y.dup();
    let mut dx = p.x.one_like();
    let mut dy = p.x.zero_like();
    let mut x2 = x.mul(&x);
    let mut y2 = y.mul(&y);
    let jt = if p.julia {
        p.x.zero_like()
    } else {
        p.x.one_like()
    };
    let mut escaped = false;
    while !escaped && i < p.it
        invariant
            0 <= i,
            i <= p.it || i == 0,
            x.m() == state_at::<T>(*p, i as nat).x,
            y.m() == state_at::<T>(*p, i as nat).y,
            dx.m() == state_at::<T>(*p, i as nat).dx,
            dy.m() == state_at::<T>(*p, i as nat).dy,
            x2.m() == state_at::<T>(*p, i as nat).x2,
            y2.m() == state_at::<T>(*p, i as nat).y2,
            jt.m() == julia_term_m::<T>(*p),
            forall|k: nat| k < i as nat ==> !escaped_at::<T>(*p, k),
            escaped ==> i < p.it && escaped_at::<T>(*p, i as nat),
        decreases p.it - i + (if escaped { 0int } else { 1int }),
    {
        let s = x2.add(&y2);
        if !s.lt(&p.rad2) {
            escaped = true;
        } else {
            let dx_tmp = dx.mul(&x).add(&jt.sub(&dy.mul(&y)));
            dy = x.two_like().mul(&dy.mul(&x).add(&dx.mul(&y)));
            dx = x.two_like().mul(&dx_tmp);
            y = x.two_like().mul(&x).mul(&y).add(&p.cy);
            x = x2.sub(&y2).add(&p.cx);
            x2 = x.mul(&x);
            y2 = y.mul(&y);
            i = i + 1;
            proof {
                assert(state_at::<T>(*p, i as nat) == step_state::<T>(
                    state_at::<T>(*p, (i - 1) as nat),
                    p.cx.m(),
                    p.cy.m(),
                    julia_term_m::<T>(*p),
                ));
            }
        }
    }
    if i >= p.it {
        (-1, p.x.zero_like(), p.x.zero_like())
    } else {
        (i, x2.add(&y2), dx.mul(&dx).add(&dy.mul(&dy)))
    }
}

/// The orbit of the origin never moves when the constant parameter is
/// zero too: every iteration state keeps position and squares at zero, so
/// no step escapes a positive radius and the engine must report the
/// sentinel under any iteration cap.
pub proof fn lemma_origin_never_escapes<T: BasicFloat>(p: MandelParams<T>, k: nat)
    requires
        p.x.m() == 0,
        p.y.m() == 0,
        p.cx.m() == 0,
        p.cy.m() == 0,
        T::lt_m(0, p.rad2.m()),
    ensures
        !escaped_at::<T>(p, k),
        state_at::<T>(p, k).x == 0,
        state_at::<T>(p, k).y == 0,
        state_at::<T>(p, k).x2 == 0,
        state_at::<T>(p, k).y2 == 0,
    decreases k,
{
    T::lemma_zero_ops();
    if k > 0 {
        lemma_origin_never_escapes::<T>(p, (k - 1) as nat);
        assert(state_at::<T>(p, k) == step_state::<T>(
            state_at::<T>(p, (k - 1) as nat),
            p.cx.m(),
            p.cy.m(),
            julia_term_m(p),
        ));
    }
}

/// Backend consistency: two backends whose arithmetic models coincide
/// compute the identical recurrence, so every iteration state and every
/// escape decision agrees between them.
pub proof fn lemma_backend_agreement<T: BasicFloat, U: BasicFloat>(
    pt: MandelParams<T>,
    pu: MandelParams<U>,
    k: nat,
)
    requires
        pt.x.m() == pu.x.m(),
        pt.y.m() == pu.y.m(),
        pt.cx.m() == pu.cx.m(),
        pt.cy.m() == pu.cy.m(),
        pt.rad2.m() == pu.rad2.m(),
        pt.julia == pu.julia,
        forall|a: int, b: int| #[trigger] T::add_m(a, b) == U::add_m(a, b),
        forall|a: int, b: int| #[trigger] T::sub_m(a, b) == U::sub_m(a, b),
        forall|a: int, b: int| #[trigger] T::mul_m(a, b) == U::mul_m(a, b),
        forall|a: int, b: int| #[trigger] T::lt_m(a, b) == U::lt_m(a, b),
    ensures
        state_at::<T>(pt, k) == state_at::<U>(pu, k),
        escaped_at::<T>(pt, k) == escaped_at::<U>(pu, k),
    decreases k,
{
    if k > 0 {
        lemma_backend_agreement::<T, U>(pt, pu, (k - 1) as nat);
    }
}

/// Builds the parameter set for one query from already-converted backend
/// values: the constant parameter follows the starting coordinate unless a
/// Julia constant is supplied, and the escape radius is clamped to the
/// backend's largest safe default so the loop cannot overflow before the
/// escape test fires.
pub fn build_params<T: BasicFloat>(x: T, y: T, julia: Option<(T, T)>, it: i64, radius: T) -> (p:
    MandelParams<T>)
    ensures
        p.x.m() == x.m(),
        p.y.m() == y.m(),
        p.it == it,
        p.julia == julia.is_some(),
        p.julia ==> p.cx.m() == julia.unwrap().0.m() && p.cy.m() == julia.unwrap().1.m(),
        !p.julia ==> p.cx.m() == x.m() && p.cy.m() == y.m(),
        p.rad2.m() == (if T::lt_m(radius.m(), T::default_radius_m()) {
            radius.m()
        } else {
            T::default_radius_m()
        }),
{
    let default = x.default_radius_like();
    let rad2 = if radius.lt(&default) {
        radius
    } else {
        default
    };
    match julia {
        Some((jx, jy)) => MandelParams {
            cx: jx,
            cy: jy,
            x,
            y,
            it,
            rad2,
            julia: true,
        },
        None => MandelParams {
            cx: x.dup(),
            cy: y.dup(),
            x,
            y,
            it,
            rad2,
            julia: false,
        },
    }
}

} // verus!
