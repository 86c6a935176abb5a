//! Easing curves over fixed-point progress: each maps a progress in
//! `[0, ONE]` to an eased progress, with `0 -> 0` and `ONE -> ONE` exactly.
use crate::fixed::{floor_div, ONE};
use vstd::arithmetic::div_mod::lemma_div_is_ordered;
use vstd::arithmetic::div_mod::lemma_div_multiples_vanish;
use vstd::arithmetic::div_mod::lemma_fundamental_div_mod;
use vstd::arithmetic::div_mod::lemma_fundamental_div_mod_converse;
use vstd::arithmetic::power2::{
    lemma2_to64, lemma2_to64_rest, lemma_pow2_strictly_increases, lemma_pow2_unfold, pow2,
};
use vstd::prelude::*;

mod presets;

verus! {

/// The bisection of a cubic stops once the estimate is this close to the
/// requested progress (0.001 of a whole).
pub const CUBIC_ERROR_BOUND: i64 = 1_000;

/// The bisection of a cubic takes at most this many steps.
pub const MAX_BISECTION_STEPS: u32 = 64;

/// Bound on the magnitude of a cubic's control coordinates.
pub const CONTROL_LIMIT: i64 = 1_125_899_906_842_624;

/// Bound on the magnitude of anything a well-formed curve produces.
pub const CURVE_LIMIT: i64 = 1_152_921_504_606_846_976;

/// The identity curve.
#[derive(Clone, Copy, Debug, PartialEq, Eq, Structural)]
pub struct Linear;

/// `1 - (1 - t)^2`.
#[derive(Clone, Copy, Debug, PartialEq, Eq, Structural)]
pub struct DecelerateCurve;

/// A bounce that settles at the start.
#[derive(Clone, Copy, Debug, PartialEq, Eq, Structural)]
pub struct BounceInCurve;

/// A bounce that settles at the end.
#[derive(Clone, Copy, Debug, PartialEq, Eq, Structural)]
pub struct BounceOutCurve;

/// A bounce at both ends.
#[derive(Clone, Copy, Debug, PartialEq, Eq, Structural)]
pub struct BounceInOutCurve;

/// A cubic Bézier easing through `(0,0)`, `(a,b)`, `(c,d)` and `(1,1)`.
#[derive(Clone, Copy, Debug, PartialEq, Eq, Structural)]
pub struct Cubic {
    pub a: i64,
    pub b: i64,
    pub c: i64,
    pub d: i64,
}

/// A step from 0 to 1 at `threshold`.
#[derive(Clone, Copy, Debug, PartialEq, Eq, Structural)]
pub struct Threshold {
    pub threshold: i64,
}

/// The fractional part of `t * count`, negative for a negative count.
#[derive(Clone, Copy, Debug, PartialEq, Eq, Structural)]
pub struct SawTooth {
    pub count: i64,
}

/// The curves a tween can be eased with. `Snap` does not interpolate: a
/// tween with it jumps straight to its destination.
#[derive(Clone, Copy, Debug, PartialEq, Eq, Structural)]
pub enum Curve {
    Snap,
    Linear(Linear),
    Cubic(Cubic),
    Threshold(Threshold),
    SawTooth(SawTooth),
    BounceIn(BounceInCurve),
    BounceOut(BounceOutCurve),
    BounceInOut(BounceInOutCurve),
    Decelerate(DecelerateCurve),
}

pub open spec fn in_unit(t: int) -> bool {
    0 <= t <= ONE as int
}

pub open spec fn bounded(x: int) -> bool {
    -CURVE_LIMIT <= x <= CURVE_LIMIT
}

/// The shared bounce shape on `[0, ONE]`: four parabolas of curvature
/// 7.5625 meeting the top at 4/11, 8/11, 10/11 and 1.
pub open spec fn bounce_base(t: int) -> int {
    let u = ONE as int;
    if 11 * t < 4 * u {
        (11 * t) * (11 * t) / (16 * u)
    } else if 11 * t < 8 * u {
        (11 * t - 6 * u) * (11 * t - 6 * u) / (16 * u) + 3 * u / 4
    } else if 11 * t < 10 * u {
        (11 * t - 9 * u) * (11 * t - 9 * u) / (16 * u) + 15 * u / 16
    } else {
        (22 * t - 21 * u) * (22 * t - 21 * u) / (64 * u) + 63 * u / 64
    }
}

/// One coordinate of the Bézier curve with inner control coordinates `p1`
/// and `p2`, at parameter `m / ONE`.
pub open spec fn bezier(p1: int, p2: int, m: int) -> int {
    let u = ONE as int;
    (3 * p1 * ((u - m) * (u - m) * m) + 3 * p2 * ((u - m) * m * m) + m * m * m * u) / (u * u * u)
}

/// The parameter that bisection on `[lo, hi]` settles on for the
/// horizontal coordinate `t`, within `steps` steps.
pub open spec fn bisect(a: int, c: int, t: int, lo: int, hi: int, steps: nat) -> int
    decreases steps,
{
    let mid = (lo + hi) / 2;
    let est = bezier(a, c, mid);
    if steps <= 1 || (t - est < CUBIC_ERROR_BOUND && est - t < CUBIC_ERROR_BOUND) {
        mid
    } else if est < t {
        bisect(a, c, t, mid, hi, (steps - 1) as nat)
    } else {
        bisect(a, c, t, lo, mid, (steps - 1) as nat)
    }
}

pub open spec fn cubic_at(cu: Cubic, t: int) -> int {
    let u = ONE as int;
    bezier(
        cu.b as int,
        cu.d as int,
        bisect(cu.a as int, cu.c as int, t, 0, u, MAX_BISECTION_STEPS as nat),
    )
}

/// A curve on the open interval `(0, ONE)`.
pub open spec fn interior_at(c: Curve, t: int) -> int {
    let u = ONE as int;
    match c {
        Curve::Snap => t,
        Curve::Linear(_) => t,
        Curve::Cubic(cu) => cubic_at(cu, t),
        Curve::Threshold(th) => if t < th.threshold {
            0
        } else {
            u
        },
        Curve::SawTooth(s) => {
            let p = t * s.count;
            if p >= 0 {
                (p / u) % u
            } else {
                -(((-p) / u) % u)
            }
        },
        Curve::BounceIn(_) => u - bounce_base(u - t),
        Curve::BounceOut(_) => bounce_base(t),
        Curve::BounceInOut(_) => if 2 * t < u {
            (u - bounce_base(u - 2 * t)) / 2
        } else {
            bounce_base(2 * t - u) / 2 + u / 2
        },
        Curve::Decelerate(_) => u - (u - t) * (u - t) / u,
    }
}

/// What a curve gives for progress `t`: the end points pass unchanged.
pub open spec fn curve_at(c: Curve, t: int) -> int {
    let u = ONE as int;
    if t == 0 || t == u {
        t
    } else {
        interior_at(c, t)
    }
}

impl Cubic {
    pub open spec fn wf(self) -> bool {
        &&& -CONTROL_LIMIT <= self.a <= CONTROL_LIMIT
        &&& -CONTROL_LIMIT <= self.b <= CONTROL_LIMIT
        &&& -CONTROL_LIMIT <= self.c <= CONTROL_LIMIT
        &&& -CONTROL_LIMIT <= self.d <= CONTROL_LIMIT
    }
}

impl Curve {
    /// The parameters of each curve are in their allowed ranges.
    pub open spec fn wf(self) -> bool {
        match self {
            Curve::Cubic(cu) => cu.wf(),
            Curve::Threshold(th) => in_unit(th.threshold as int),
            _ => true,
        }
    }

    /// The curve can be applied to `t`: only the end points may be asked
    /// of `Snap`.
    pub open spec fn applies_to(self, t: int) -> bool {
        &&& self.wf()
        &&& in_unit(t)
        &&& (t == 0 || t == ONE || !(self is Snap))
    }
}

proof fn lemma_square_quotient(x: int, k: int, d: int)
    requires
        -k * ONE <= x <= k * ONE,
        k >= 0,
        d > 0,
    ensures
        0 <= x * x / d <= (k * ONE) * (k * ONE) / d,
{
    assert(0 <= x * x <= (k * ONE) * (k * ONE)) by (nonlinear_arith)
        requires
            -k * ONE <= x <= k * ONE,
            k >= 0,
    ;
    lemma_div_is_ordered(x * x, (k * ONE) * (k * ONE), d);
    lemma_div_is_ordered(0, x * x, d);
}

proof fn lemma_bounce_base_bounds(t: int)
    requires
        in_unit(t),
    ensures
        0 <= bounce_base(t) <= ONE,
{
    assert((4 * ONE) * (4 * ONE) == 16_000_000_000_000 && (2 * ONE) * (2 * ONE)
        == 4_000_000_000_000 && (1 * ONE) * (1 * ONE) == 1_000_000_000_000) by (nonlinear_arith)
        requires
            ONE == 1_000_000,
    ;
    lemma_fundamental_div_mod_converse(16_000_000_000_000, 16_000_000, 1_000_000, 0);
    lemma_fundamental_div_mod_converse(4_000_000_000_000, 16_000_000, 250_000, 0);
    lemma_fundamental_div_mod_converse(1_000_000_000_000, 16_000_000, 62_500, 0);
    lemma_fundamental_div_mod_converse(1_000_000_000_000, 64_000_000, 15_625, 0);
    if 11 * t < 4 * ONE {
        lemma_square_quotient(11 * t, 4, 16 * ONE);
    } else if 11 * t < 8 * ONE {
        lemma_square_quotient(11 * t - 6 * ONE, 2, 16 * ONE);
    } else if 11 * t < 10 * ONE {
        lemma_square_quotient(11 * t - 9 * ONE, 1, 16 * ONE);
    } else {
        lemma_square_quotient(22 * t - 21 * ONE, 1, 64 * ONE);
    }
}

fn bounce_base_exec(t: i64) -> (r: i64)
    requires
        in_unit(t as int),
    ensures
        r == bounce_base(t as int),
        0 <= r <= ONE,
{
    proof {
        lemma_bounce_base_bounds(t as int);
    }
    let s: i64 = 11 * t;
    let d: i64 = if s < 4 * ONE {
        s
    } else if s < 8 * ONE {
        s - 6 * ONE
    } else if s < 10 * ONE {
        s - 9 * ONE
    } else {
        2 * s - 21 * ONE
    };
    assert(0 <= d * d <= 484 * ONE * ONE) by (nonlinear_arith)
        requires
            -22 * ONE <= d <= 22 * ONE,
    ;
    let sq: i64 = d * d;
    if s < 4 * ONE {
        sq / (16 * ONE)
    } else if s < 8 * ONE {
        sq / (16 * ONE) + 3 * ONE / 4
    } else if s < 10 * ONE {
        sq / (16 * ONE) + 15 * ONE / 16
    } else {
        sq / (64 * ONE) + 63 * ONE / 64
    }
}

proof fn lemma_cube_terms(w: int, m: int)
    requires
        0 <= w <= ONE,
        0 <= m <= ONE,
    ensures
        0 <= w * w <= ONE * ONE,
        0 <= w * m <= ONE * ONE,
        0 <= m * m <= ONE * ONE,
        0 <= w * w * m <= ONE * ONE * ONE,
        0 <= w * m * m <= ONE * ONE * ONE,
        0 <= m * m * m <= ONE * ONE * ONE,
        0 <= m * m * m * ONE <= 1_000_000_000_000_000_000_000_000,
        ONE * ONE * ONE == 1_000_000_000_000_000_000,
{
    assert(0 <= w * w <= ONE * ONE && 0 <= w * m <= ONE * ONE && 0 <= m * m <= ONE * ONE)
        by (nonlinear_arith)
        requires
            0 <= w <= ONE,
            0 <= m <= ONE,
    ;
    assert(0 <= w * w * m <= ONE * ONE * ONE && 0 <= w * m * m <= ONE * ONE * ONE && 0 <= m * m
        * m <= ONE * ONE * ONE) by (nonlinear_arith)
        requires
            0 <= w <= ONE,
            0 <= m <= ONE,
            0 <= w * w <= ONE * ONE,
            0 <= w * m <= ONE * ONE,
            0 <= m * m <= ONE * ONE,
    ;
    assert(ONE * ONE * ONE == 1_000_000_000_000_000_000) by (nonlinear_arith)
        requires
            ONE == 1_000_000,
    ;
    assert(0 <= m * m * m * ONE <= 1_000_000_000_000_000_000_000_000) by (nonlinear_arith)
        requires
            0 <= m * m * m <= 1_000_000_000_000_000_000,
            ONE == 1_000_000,
    ;
}

proof fn lemma_scaled_term(p: int, x: int)
    requires
        -CONTROL_LIMIT <= p <= CONTROL_LIMIT,
        0 <= x <= 1_000_000_000_000_000_000,
    ensures
        -3 * CONTROL_LIMIT * 1_000_000_000_000_000_000 <= 3 * p * x <= 3 * CONTROL_LIMIT
            * 1_000_000_000_000_000_000,
{
    assert(-3 * CONTROL_LIMIT * 1_000_000_000_000_000_000 <= 3 * p * x <= 3 * CONTROL_LIMIT
        * 1_000_000_000_000_000_000) by (nonlinear_arith)
        requires
            -CONTROL_LIMIT <= p <= CONTROL_LIMIT,
            0 <= x <= 1_000_000_000_000_000_000,
    ;
}

proof fn lemma_quotient_bound(n: int, k: int, d: int)
    requires
        d > 0,
        k >= 0,
        -k * d <= n <= k * d,
    ensures
        -k <= n / d <= k,
{
    lemma_div_is_ordered(n, k * d, d);
    lemma_div_is_ordered(-k * d, n, d);
    lemma_div_multiples_vanish(k, d);
    lemma_div_multiples_vanish(-k, d);
    assert(d * k == k * d && d * -k == -k * d) by (nonlinear_arith);
}

fn bezier_exec(p1: i64, p2: i64, m: i64) -> (r: i64)
    requires
        -CONTROL_LIMIT <= p1 <= CONTROL_LIMIT,
        -CONTROL_LIMIT <= p2 <= CONTROL_LIMIT,
        in_unit(m as int),
    ensures
        r == bezier(p1 as int, p2 as int, m as int),
        -7 * CONTROL_LIMIT <= r <= 7 * CONTROL_LIMIT,
{
    let u: i128 = ONE as i128;
    let mm: i128 = m as i128;
    let w: i128 = u - mm;
    proof {
        lemma_cube_terms(w as int, mm as int);
    }
    let x1: i128 = w * w * mm;
    let x2: i128 = w * mm * mm;
    let x3: i128 = mm * mm * mm * u;
    proof {
        lemma_scaled_term(p1 as int, x1 as int);
        lemma_scaled_term(p2 as int, x2 as int);
    }
    let num: i128 = 3 * (p1 as i128) * x1 + 3 * (p2 as i128) * x2 + x3;
    let cube: i128 = u * u * u;
    proof {
        lemma_quotient_bound(num as int, 7 * CONTROL_LIMIT, cube as int);
    }
    floor_div(num, cube) as i64
}

fn bisect_exec(a: i64, c: i64, t: i64) -> (m: i64)
    requires
        in_unit(t as int),
        -CONTROL_LIMIT <= a <= CONTROL_LIMIT,
        -CONTROL_LIMIT <= c <= CONTROL_LIMIT,
    ensures
        m == bisect(a as int, c as int, t as int, 0, ONE as int, MAX_BISECTION_STEPS as nat),
        in_unit(m as int),
{
    let mut lo: i64 = 0;
    let mut hi: i64 = ONE;
    let mut steps: u32 = MAX_BISECTION_STEPS;
    loop
        invariant
            0 <= lo <= hi <= ONE,
            in_unit(t as int),
            1 <= steps <= MAX_BISECTION_STEPS,
            -CONTROL_LIMIT <= a <= CONTROL_LIMIT,
            -CONTROL_LIMIT <= c <= CONTROL_LIMIT,
            bisect(a as int, c as int, t as int, lo as int, hi as int, steps as nat) == bisect(
                a as int,
                c as int,
                t as int,
                0,
                ONE as int,
                MAX_BISECTION_STEPS as nat,
            ),
        decreases steps,
    {
        let mid: i64 = (lo + hi) / 2;
        let est: i64 = bezier_exec(a, c, mid);
        let diff: i64 = t - est;
        if steps <= 1 || (diff < CUBIC_ERROR_BOUND && -diff < CUBIC_ERROR_BOUND) {
            return mid;
        }
        if est < t {
            lo = mid;
        } else {
            hi = mid;
        }
        steps = steps - 1;
    }
}

impl Cubic {
    /// Eases `t` by bisecting for the parameter whose horizontal coordinate
    /// is within [`CUBIC_ERROR_BOUND`] of `t`, then reading the vertical
    /// coordinate there; the bisection gives up after
    /// [`MAX_BISECTION_STEPS`] steps.
    pub fn transform(&self, t: i64) -> (r: i64)
        requires
            self.wf(),
            in_unit(t as int),
        ensures
            r == curve_at(Curve::Cubic(*self), t as int),
            bounded(r as int),
            -7 * CONTROL_LIMIT <= r <= 7 * CONTROL_LIMIT,
    {
        if t == 0 || t == ONE {
            return t;
        }
        let m: i64 = bisect_exec(self.a, self.c, t);
        bezier_exec(self.b, self.d, m)
    }
}

impl Curve {
    /// Eases progress `t`; `0` and `ONE` pass unchanged.
    pub fn transform(&self, t: i64) -> (r: i64)
        requires
            self.applies_to(t as int),
        ensures
            r == curve_at(*self, t as int),
            bounded(r as int),
            t == 0 ==> r == 0,
            t == ONE ==> r == ONE,
    {
        if t == 0 || t == ONE {
            return t;
        }
        proof {
            lemma_bounce_base_bounds(t as int);
            lemma_bounce_base_bounds(ONE - t);
        }
        match self {
            Curve::Snap => t,
            Curve::Linear(_) => t,
            Curve::Cubic(cu) => cu.transform(t),
            Curve::Threshold(th) => if t < th.threshold {
                0
            } else {
                ONE
            },
            Curve::SawTooth(s) => {
                assert(ONE * i64::MIN <= t * s.count <= ONE * i64::MAX) by (nonlinear_arith)
                    requires
                        in_unit(t as int),
                        i64::MIN <= s.count <= i64::MAX,
                ;
                let p: i128 = t as i128 * s.count as i128;
                if p >= 0 {
                    ((p / ONE as i128) % ONE as i128) as i64
                } else {
                    -((((-p) / ONE as i128) % ONE as i128) as i64)
                }
            },
            Curve::BounceIn(_) => ONE - bounce_base_exec(ONE - t),
            Curve::BounceOut(_) => bounce_base_exec(t),
            Curve::BounceInOut(_) => if 2 * t < ONE {
                (ONE - bounce_base_exec(ONE - 2 * t)) / 2
            } else {
                bounce_base_exec(2 * t - ONE) / 2 + ONE / 2
            },
            Curve::Decelerate(_) => {
                let w: i64 = ONE - t;
                assert(0 <= w * w <= ONE * ONE) by (nonlinear_arith)
                    requires
                        0 <= w <= ONE,
                ;
                proof {
                    lemma_div_is_ordered(w * w, ONE * ONE, ONE as int);
                    lemma_div_is_ordered(0, w * w, ONE as int);
                    lemma_div_multiples_vanish(ONE as int, ONE as int);
                }
                ONE - w * w / ONE
            },
        }
    }
}

impl Curve {
    /// A cubic easing through the control points `(a, b)` and `(c, d)`.
    pub fn cubic(a: i64, b: i64, c: i64, d: i64) -> (r: Curve)
        requires
            (Cubic { a, b, c, d }).wf(),
        ensures
            r == Curve::Cubic(Cubic { a, b, c, d }),
            r.wf(),
    {
        Curve::Cubic(Cubic { a, b, c, d })
    }

    /// A step from 0 to `ONE` at `threshold`.
    pub fn threshold(threshold: i64) -> (r: Curve)
        requires
            in_unit(threshold as int),
        ensures
            r == Curve::Threshold(Threshold { threshold }),
            r.wf(),
    {
        Curve::Threshold(Threshold { threshold })
    }

    /// `count` teeth over the whole progress.
    pub fn saw_tooth(count: i64) -> (r: Curve)
        ensures
            r == Curve::SawTooth(SawTooth { count }),
            r.wf(),
    {
        Curve::SawTooth(SawTooth { count })
    }

    pub fn linear() -> (c: Curve)
        ensures
            c == Curve::Linear(Linear),
    {
        Curve::Linear(Linear)
    }

    pub fn decelerate() -> (c: Curve)
        ensures
            c == Curve::Decelerate(DecelerateCurve),
    {
        Curve::Decelerate(DecelerateCurve)
    }

    pub fn bounce_in() -> (c: Curve)
        ensures
            c == Curve::BounceIn(BounceInCurve),
    {
        Curve::BounceIn(BounceInCurve)
    }

    pub fn bounce_out() -> (c: Curve)
        ensures
            c == Curve::BounceOut(BounceOutCurve),
    {
        Curve::BounceOut(BounceOutCurve)
    }

    pub fn bounce_in_out() -> (c: Curve)
        ensures
            c == Curve::BounceInOut(BounceInOutCurve),
    {
        Curve::BounceInOut(BounceInOutCurve)
    }
}

/// Quantizes progress into `step_count` levels, rounding to the nearest
/// level unless the first or last step is made a single frame.
#[derive(Clone, Copy, Debug, PartialEq, Eq, Structural)]
pub struct Stepped {
    pub is_initial_step_single_frame: bool,
    pub is_final_step_single_frame: bool,
    pub step_count: usize,
}

/// The level `Stepped` picks for interior progress `t`.
pub open spec fn stepped_at(s: Stepped, t: int) -> int {
    let u = ONE as int;
    let n = s.step_count as int;
    let k = if s.is_initial_step_single_frame && t > 0 {
        (t * n + u - 1) / u
    } else if s.is_final_step_single_frame && t < u {
        t * n / u
    } else {
        (2 * (t * n) + u) / (2 * u)
    };
    k * u / n
}

/// What `Stepped` gives for progress `t`: the end points pass unchanged.
pub open spec fn stepped_curve_at(s: Stepped, t: int) -> int {
    if t == 0 || t == ONE {
        t
    } else {
        stepped_at(s, t)
    }
}

impl Stepped {
    pub fn new(step_count: usize) -> (s: Stepped)
        ensures
            s == (Stepped {
                is_initial_step_single_frame: false,
                is_final_step_single_frame: false,
                step_count,
            }),
    {
        Stepped { is_initial_step_single_frame: false, is_final_step_single_frame: false, step_count }
    }

    /// Rounds every interior progress up, so the first level lasts a
    /// single frame.
    pub fn initial_step_single_frame(&mut self)
        ensures
            *final(self) == (Stepped { is_initial_step_single_frame: true, ..*old(self) }),
    {
        self.is_initial_step_single_frame = true;
    }

    /// Rounds every interior progress down, so the last level lasts a
    /// single frame.
    pub fn final_step_single_frame(&mut self)
        ensures
            *final(self) == (Stepped { is_final_step_single_frame: true, ..*old(self) }),
    {
        self.is_final_step_single_frame = true;
    }

    pub fn transform(&self, t: i64) -> (r: i64)
        requires
            self.step_count > 0,
            in_unit(t as int),
        ensures
            r == stepped_curve_at(*self, t as int),
            0 <= r <= ONE,
    {
        if t == 0 || t == ONE {
            return t;
        }
        let u: u128 = ONE as u128;
        let n: u128 = self.step_count as u128;
        assert(0 <= t * n <= ONE * usize::MAX) by (nonlinear_arith)
            requires
                in_unit(t as int),
                0 <= n <= usize::MAX,
        ;
        let st: u128 = t as u128 * n;
        let k: u128 = if self.is_initial_step_single_frame && t > 0 {
            (st + u - 1) / u
        } else if self.is_final_step_single_frame && t < ONE {
            st / u
        } else {
            (2 * st + u) / (2 * u)
        };
        proof {
            lemma_steps_bound(t as int, n as int, k as int);
        }
        let r: u128 = k * u / n;
        proof {
            lemma_div_is_ordered(k * ONE, n * ONE, n as int);
            lemma_div_multiples_vanish(ONE as int, n as int);
            assert(n * ONE == ONE * n) by (nonlinear_arith);
        }
        r as i64
    }
}

proof fn lemma_steps_bound(t: int, n: int, k: int)
    requires
        0 < t < ONE,
        n > 0,
        k == (t * n + ONE - 1) / (ONE as int) || k == t * n / (ONE as int) || k == (2 * (t * n) + ONE)
            / (2 * ONE),
    ensures
        0 <= k <= n,
        k * ONE <= n * ONE,
{
    assert(0 <= t * n + ONE - 1 <= n * ONE + ONE - 1 && 0 <= 2 * (t * n) + ONE <= 2 * n * ONE + ONE)
        by (nonlinear_arith)
        requires
            0 < t < ONE,
            n > 0,
    ;
    lemma_div_is_ordered(t * n + ONE - 1, n * ONE + ONE - 1, ONE as int);
    lemma_div_is_ordered(t * n, n * ONE, ONE as int);
    lemma_div_is_ordered(2 * (t * n) + ONE, 2 * n * ONE + ONE, 2 * ONE);
    lemma_div_is_ordered(0, t * n, ONE as int);
    lemma_div_is_ordered(0, 2 * (t * n) + ONE, 2 * ONE);
    lemma_div_is_ordered(0, t * n + ONE - 1, ONE as int);
    lemma_fundamental_div_mod_converse(n * ONE + ONE - 1, ONE as int, n, ONE - 1);
    lemma_fundamental_div_mod_converse(n * ONE, ONE as int, n, 0);
    lemma_fundamental_div_mod_converse(2 * n * ONE + ONE, 2 * ONE, n, ONE as int);
    assert(n * ONE == n * ONE + 0 && 2 * n * ONE + ONE == n * (2 * ONE) + ONE && n * ONE + ONE - 1
        == n * ONE + (ONE - 1)) by (nonlinear_arith);
    assert(k * ONE <= n * ONE) by (nonlinear_arith)
        requires
            k <= n,
    ;
}

/// Runs `curve` within `[begin, end]`: before `begin` the result is 0,
/// after `end` it is `ONE`.
pub struct Interval {
    pub begin: i64,
    pub end: i64,
    pub curve: Curve,
}

/// The progress within the interval; a point interval is over once reached.
pub open spec fn interval_progress(iv: Interval, t: int) -> int {
    let u = ONE as int;
    if iv.end == iv.begin {
        if t < iv.begin {
            0
        } else {
            u
        }
    } else {
        let p = (t - iv.begin) * u / (iv.end - iv.begin);
        if p < 0 {
            0
        } else if p > u {
            u
        } else {
            p
        }
    }
}

pub open spec fn interval_at(iv: Interval, t: int) -> int {
    let u = ONE as int;
    let p = interval_progress(iv, t);
    if t == 0 || t == u {
        t
    } else if p == 0 || p == u {
        p
    } else {
        curve_at(iv.curve, p)
    }
}

impl Interval {
    pub open spec fn wf(self) -> bool {
        &&& 0 <= self.begin <= self.end <= ONE
        &&& self.curve.wf()
        &&& !(self.curve is Snap)
    }

    pub fn new(begin: i64, end: i64, curve: Curve) -> (iv: Interval)
        ensures
            iv == (Interval { begin, end, curve }),
    {
        Interval { begin, end, curve }
    }

    pub fn transform(&self, t: i64) -> (r: i64)
        requires
            self.wf(),
            in_unit(t as int),
        ensures
            r == interval_at(*self, t as int),
            bounded(r as int),
    {
        if t == 0 || t == ONE {
            return t;
        }
        let p: i64 = if self.end == self.begin {
            if t < self.begin {
                0
            } else {
                ONE
            }
        } else {
            assert(-ONE * ONE <= (t - self.begin) * ONE <= ONE * ONE) by (nonlinear_arith)
                requires
                    -ONE <= t - self.begin <= ONE,
            ;
            let q: i128 = floor_div(
                (t as i128 - self.begin as i128) * ONE as i128,
                self.end as i128 - self.begin as i128,
            );
            if q < 0 {
                0
            } else if q > ONE as i128 {
                ONE
            } else {
                q as i64
            }
        };
        if p == 0 || p == ONE {
            p
        } else {
            self.curve.transform(p)
        }
    }
}

/// Two curves stitched at `split`: `begin` eases `[0, split]` onto
/// `[0, split]` and `end` eases `[split, ONE]` onto `[split, ONE]`.
pub struct Split {
    pub split: i64,
    pub begin: Curve,
    pub end: Curve,
}

pub open spec fn split_at(sp: Split, t: int) -> int {
    let u = ONE as int;
    let s = sp.split as int;
    if t == 0 || t == u {
        t
    } else if t == s {
        s
    } else if t < s {
        s * curve_at(sp.begin, t * u / s) / u
    } else {
        let tr = curve_at(sp.end, (t - s) * u / (u - s));
        (s * (u - tr) + u * tr) / u
    }
}

impl Split {
    pub open spec fn wf(self) -> bool {
        &&& in_unit(self.split as int)
        &&& self.begin.wf()
        &&& !(self.begin is Snap)
        &&& self.end.wf()
        &&& !(self.end is Snap)
    }

    pub fn new(split: i64, begin: Curve, end: Curve) -> (sp: Split)
        ensures
            sp == (Split { split, begin, end }),
    {
        Split { split, begin, end }
    }

    pub fn transform(&self, t: i64) -> (r: i64)
        requires
            self.wf(),
            in_unit(t as int),
        ensures
            r == split_at(*self, t as int),
    {
        if t == 0 || t == ONE {
            return t;
        }
        let s: i64 = self.split;
        if t == s {
            return s;
        }
        if t < s {
            assert(0 <= t * ONE <= s * ONE) by (nonlinear_arith)
                requires
                    0 <= t <= s,
            ;
            let cp: i64 = t * ONE / s;
            proof {
                lemma_div_is_ordered(t * ONE, s * ONE, s as int);
                lemma_div_is_ordered(0, t * ONE, s as int);
                lemma_div_multiples_vanish(ONE as int, s as int);
                assert(s * ONE == ONE * s) by (nonlinear_arith);
            }
            let tr: i64 = self.begin.transform(cp);
            assert(-ONE * CURVE_LIMIT <= s * tr <= ONE * CURVE_LIMIT) by (nonlinear_arith)
                requires
                    0 <= s <= ONE,
                    -CURVE_LIMIT <= tr <= CURVE_LIMIT,
            ;
            proof {
                lemma_quotient_bound(s * tr, CURVE_LIMIT as int, ONE as int);
                assert(ONE * CURVE_LIMIT == CURVE_LIMIT * ONE) by (nonlinear_arith);
            }
            floor_div(s as i128 * tr as i128, ONE as i128) as i64
        } else {
            let w: i64 = ONE - s;
            assert(0 <= (t - s) * ONE <= w * ONE) by (nonlinear_arith)
                requires
                    0 <= t - s <= w,
            ;
            let cp: i64 = (t - s) * ONE / w;
            proof {
                lemma_div_is_ordered((t - s) * ONE, w * ONE, w as int);
                lemma_div_is_ordered(0, (t - s) * ONE, w as int);
                lemma_div_multiples_vanish(ONE as int, w as int);
                assert(w * ONE == ONE * w) by (nonlinear_arith);
            }
            let tr: i64 = self.end.transform(cp);
            assert(-3 * ONE * CURVE_LIMIT <= s * (ONE - tr) + ONE * tr <= 3 * ONE * CURVE_LIMIT)
                by (nonlinear_arith)
                requires
                    0 <= s <= ONE,
                    -CURVE_LIMIT <= tr <= CURVE_LIMIT,
                    ONE < CURVE_LIMIT,
            ;
            proof {
                lemma_quotient_bound(s * (ONE - tr) + ONE * tr, 3 * CURVE_LIMIT, ONE as int);
                assert(3 * ONE * CURVE_LIMIT == 3 * CURVE_LIMIT * ONE) by (nonlinear_arith);
            }
            let n: i128 = s as i128 * (ONE as i128 - tr as i128) + ONE as i128 * tr as i128;
            floor_div(n, ONE as i128) as i64
        }
    }
}

/// Bound on the magnitude of a three-point curve's control coordinates
/// (500 in fixed point).
pub const OFFSET_LIMIT: i64 = 500_000_000;

/// A point of a [`ThreePointCubic`], in fixed point.
#[derive(Clone, Copy, Debug, PartialEq, Eq, Structural)]
pub struct Offset {
    pub dx: i64,
    pub dy: i64,
}

impl Offset {
    pub fn from_tuple(p: (i64, i64)) -> (o: Offset)
        ensures
            o == (Offset { dx: p.0, dy: p.1 }),
    {
        Offset { dx: p.0, dy: p.1 }
    }
}

/// Two cubics joined at `midpoint`: the first through `a1` and `b1` over
/// `[0, midpoint]`, the second through `a2` and `b2` over
/// `[midpoint, ONE]`, each rescaled onto its part in both axes.
#[derive(Clone, Copy, Debug, PartialEq, Eq, Structural)]
pub struct ThreePointCubic {
    pub a1: Offset,
    pub b1: Offset,
    pub midpoint: Offset,
    pub a2: Offset,
    pub b2: Offset,
}

pub open spec fn offset_ok(o: Offset) -> bool {
    -OFFSET_LIMIT <= o.dx <= OFFSET_LIMIT && -OFFSET_LIMIT <= o.dy <= OFFSET_LIMIT
}

/// `p / s` in fixed point, rounded down; a zero scale flattens to 0.
pub open spec fn rescale(p: int, s: int) -> int {
    if s > 0 {
        p * ONE / s
    } else if s < 0 {
        (-p) * ONE / (-s)
    } else {
        0
    }
}

/// The cubic that eases one part of a three-point curve.
pub open spec fn part_cubic(tp: ThreePointCubic, first: bool) -> Cubic {
    let m = tp.midpoint;
    if first {
        Cubic {
            a: rescale(tp.a1.dx as int, m.dx as int) as i64,
            b: rescale(tp.a1.dy as int, m.dy as int) as i64,
            c: rescale(tp.b1.dx as int, m.dx as int) as i64,
            d: rescale(tp.b1.dy as int, m.dy as int) as i64,
        }
    } else {
        Cubic {
            a: rescale(tp.a2.dx - m.dx, ONE - m.dx) as i64,
            b: rescale(tp.a2.dy - m.dy, ONE - m.dy) as i64,
            c: rescale(tp.b2.dx - m.dx, ONE - m.dx) as i64,
            d: rescale(tp.b2.dy - m.dy, ONE - m.dy) as i64,
        }
    }
}

pub open spec fn three_point_at(tp: ThreePointCubic, t: int) -> int {
    let u = ONE as int;
    let m = tp.midpoint;
    if t == 0 || t == u {
        t
    } else if t < m.dx {
        curve_at(Curve::Cubic(part_cubic(tp, true)), rescale(t, m.dx as int)) * m.dy / u
    } else {
        curve_at(Curve::Cubic(part_cubic(tp, false)), rescale(t - m.dx, u - m.dx)) * (u - m.dy) / u
            + m.dy
    }
}

proof fn lemma_rescale_bounds(p: int, s: int)
    requires
        -2 * OFFSET_LIMIT <= p <= 2 * OFFSET_LIMIT,
        1 <= s,
    ensures
        -CONTROL_LIMIT <= p * ONE / s <= CONTROL_LIMIT,
{
    let k = 2 * OFFSET_LIMIT * ONE;
    assert(-k <= p * ONE <= k) by (nonlinear_arith)
        requires
            -2 * OFFSET_LIMIT <= p <= 2 * OFFSET_LIMIT,
            k == 2 * OFFSET_LIMIT * ONE,
    ;
    assert(-k * s <= p * ONE <= k * s) by (nonlinear_arith)
        requires
            -k <= p * ONE <= k,
            s >= 1,
            k >= 0,
    ;
    lemma_quotient_bound(p * ONE, k, s);
    assert(k <= CONTROL_LIMIT) by (nonlinear_arith)
        requires
            k == 2 * OFFSET_LIMIT * ONE,
            ONE == 1_000_000,
            OFFSET_LIMIT == 500_000_000,
    ;
}

fn rescale_exec(p: i64, s: i64) -> (r: i64)
    requires
        -2 * OFFSET_LIMIT <= p <= 2 * OFFSET_LIMIT,
        -2 * OFFSET_LIMIT <= s <= 2 * OFFSET_LIMIT,
    ensures
        r == rescale(p as int, s as int),
        -CONTROL_LIMIT <= r <= CONTROL_LIMIT,
{
    assert(-2 * OFFSET_LIMIT * ONE <= p * ONE <= 2 * OFFSET_LIMIT * ONE) by (nonlinear_arith)
        requires
            -2 * OFFSET_LIMIT <= p <= 2 * OFFSET_LIMIT,
    ;
    if s > 0 {
        proof {
            lemma_rescale_bounds(p as int, s as int);
        }
        floor_div(p as i128 * ONE as i128, s as i128) as i64
    } else if s < 0 {
        proof {
            lemma_rescale_bounds(-p, -s);
        }
        floor_div(-(p as i128) * ONE as i128, -(s as i128)) as i64
    } else {
        0
    }
}

/// A part's eased progress scaled by its height stays far inside `i64`.
proof fn lemma_scaled_part(y: int, sy: int)
    requires
        -7 * CONTROL_LIMIT <= y <= 7 * CONTROL_LIMIT,
        -2 * OFFSET_LIMIT <= sy <= 2 * OFFSET_LIMIT,
    ensures
        -8_000_000_000_000_000_000_000_000 <= y * sy <= 8_000_000_000_000_000_000_000_000,
        -8_000_000_000_000_000_000 <= y * sy / (ONE as int) <= 8_000_000_000_000_000_000,
{
    assert(-8_000_000_000_000_000_000_000_000 <= y * sy <= 8_000_000_000_000_000_000_000_000)
        by (nonlinear_arith)
        requires
            -7 * CONTROL_LIMIT <= y <= 7 * CONTROL_LIMIT,
            -2 * OFFSET_LIMIT <= sy <= 2 * OFFSET_LIMIT,
            CONTROL_LIMIT == 1_125_899_906_842_624,
            OFFSET_LIMIT == 500_000_000,
    ;
    lemma_quotient_bound(y * sy, 8_000_000_000_000_000_000, ONE as int);
}

impl ThreePointCubic {
    pub open spec fn wf(self) -> bool {
        &&& 0 < self.midpoint.dx < ONE
        &&& -OFFSET_LIMIT <= self.midpoint.dy <= OFFSET_LIMIT
        &&& offset_ok(self.a1)
        &&& offset_ok(self.b1)
        &&& offset_ok(self.a2)
        &&& offset_ok(self.b2)
    }

    pub fn new(
        a1: (i64, i64),
        b1: (i64, i64),
        midpoint: (i64, i64),
        a2: (i64, i64),
        b2: (i64, i64),
    ) -> (tp: ThreePointCubic)
        ensures
            tp == (ThreePointCubic {
                a1: Offset { dx: a1.0, dy: a1.1 },
                b1: Offset { dx: b1.0, dy: b1.1 },
                midpoint: Offset { dx: midpoint.0, dy: midpoint.1 },
                a2: Offset { dx: a2.0, dy: a2.1 },
                b2: Offset { dx: b2.0, dy: b2.1 },
            }),
    {
        ThreePointCubic {
            a1: Offset::from_tuple(a1),
            b1: Offset::from_tuple(b1),
            midpoint: Offset::from_tuple(midpoint),
            a2: Offset::from_tuple(a2),
            b2: Offset::from_tuple(b2),
        }
    }

    pub fn transform(&self, t: i64) -> (r: i64)
        requires
            self.wf(),
            in_unit(t as int),
        ensures
            r == three_point_at(*self, t as int),
    {
        if t == 0 || t == ONE {
            return t;
        }
        let m = self.midpoint;
        if t < m.dx {
            let cu = Cubic {
                a: rescale_exec(self.a1.dx, m.dx),
                b: rescale_exec(self.a1.dy, m.dy),
                c: rescale_exec(self.b1.dx, m.dx),
                d: rescale_exec(self.b1.dy, m.dy),
            };
            let st: i64 = rescale_exec(t, m.dx);
            proof {
                lemma_div_is_ordered(t * ONE, m.dx * ONE, m.dx as int);
                lemma_div_is_ordered(0, t * ONE, m.dx as int);
                lemma_div_multiples_vanish(ONE as int, m.dx as int);
                assert(m.dx * ONE == ONE * m.dx && 0 <= t * ONE <= m.dx * ONE) by (nonlinear_arith)
                    requires
                        0 <= t <= m.dx,
                ;
            }
            let y: i64 = cu.transform(st);
            proof {
                lemma_scaled_part(y as int, m.dy as int);
            }
            floor_div(y as i128 * m.dy as i128, ONE as i128) as i64
        } else {
            let sx: i64 = ONE - m.dx;
            let sy: i64 = ONE - m.dy;
            let cu = Cubic {
                a: rescale_exec(self.a2.dx - m.dx, sx),
                b: rescale_exec(self.a2.dy - m.dy, sy),
                c: rescale_exec(self.b2.dx - m.dx, sx),
                d: rescale_exec(self.b2.dy - m.dy, sy),
            };
            let st: i64 = rescale_exec(t - m.dx, sx);
            proof {
                lemma_div_is_ordered((t - m.dx) * ONE, sx * ONE, sx as int);
                lemma_div_is_ordered(0, (t - m.dx) * ONE, sx as int);
                lemma_div_multiples_vanish(ONE as int, sx as int);
                assert(sx * ONE == ONE * sx && 0 <= (t - m.dx) * ONE <= sx * ONE) by (nonlinear_arith)
                    requires
                        0 <= t - m.dx <= sx,
                ;
            }
            let y: i64 = cu.transform(st);
            proof {
                lemma_scaled_part(y as int, sy as int);
            }
            floor_div(y as i128 * sy as i128, ONE as i128) as i64 + m.dy
        }
    }
}

/// With inner control coordinates within one unit of zero, a Bézier
/// coordinate rises by at most 22 units from one parameter to the next.
proof fn lemma_bezier_step(p1: int, p2: int, m: int)
    requires
        -ONE <= p1 <= ONE,
        -ONE <= p2 <= ONE,
        0 <= m < ONE,
    ensures
        bezier(p1, p2, m + 1) <= bezier(p1, p2, m) + 22,
{
    let u = ONE as int;
    let w = u - m;
    let f0 = (u - m) * (u - m) * m;
    let f1 = (u - (m + 1)) * (u - (m + 1)) * (m + 1);
    let g0 = (u - m) * m * m;
    let g1 = (u - (m + 1)) * (m + 1) * (m + 1);
    let h0 = m * m * m * u;
    let h1 = (m + 1) * (m + 1) * (m + 1) * u;
    assert(f1 - f0 == w * w - 2 * w * (m + 1) + (m + 1)) by (nonlinear_arith)
        requires
            w == u - m,
            f0 == (u - m) * (u - m) * m,
            f1 == (u - (m + 1)) * (u - (m + 1)) * (m + 1),
    ;
    assert(g1 - g0 == w * (2 * m + 1) - (m + 1) * (m + 1)) by (nonlinear_arith)
        requires
            w == u - m,
            g0 == (u - m) * m * m,
            g1 == (u - (m + 1)) * (m + 1) * (m + 1),
    ;
    assert(h1 - h0 == u * (3 * (m * m) + 3 * m + 1)) by (nonlinear_arith)
        requires
            h0 == m * m * m * u,
            h1 == (m + 1) * (m + 1) * (m + 1) * u,
    ;
    assert(0 <= w * w <= u * u && 0 <= w * (m + 1) <= u * u && 0 <= (m + 1) * (m + 1) <= u * u
        && 0 <= w * (2 * m + 1) <= 2 * u * u && 0 <= m * m <= u * u) by (nonlinear_arith)
        requires
            0 <= m < u,
            w == u - m,
    ;
    let df = f1 - f0;
    let dg = g1 - g0;
    assert(-3 * (u * u) <= df <= 3 * (u * u)) by (nonlinear_arith)
        requires
            df == w * w - 2 * w * (m + 1) + (m + 1),
            0 <= w * w <= u * u,
            0 <= w * (m + 1) <= u * u,
            0 <= m < u,
    ;
    assert(-3 * (u * u) <= dg <= 3 * (u * u)) by (nonlinear_arith)
        requires
            dg == w * (2 * m + 1) - (m + 1) * (m + 1),
            0 <= w * (2 * m + 1) <= 2 * u * u,
            0 <= (m + 1) * (m + 1) <= u * u,
    ;
    assert(0 <= h1 - h0 <= 4 * (u * (u * u))) by (nonlinear_arith)
        requires
            h1 - h0 == u * (3 * (m * m) + 3 * m + 1),
            0 <= m * m <= u * u,
            0 <= m < u,
            u == 1_000_000,
    ;
    assert(3 * p1 * df <= 9 * (u * (u * u)) && 3 * p2 * dg <= 9 * (u * (u * u))) by (nonlinear_arith)
        requires
            -u <= p1 <= u,
            -u <= p2 <= u,
            -3 * (u * u) <= df <= 3 * (u * u),
            -3 * (u * u) <= dg <= 3 * (u * u),
            u > 0,
    ;
    assert(3 * p1 * f1 - 3 * p1 * f0 == 3 * p1 * df && 3 * p2 * g1 - 3 * p2 * g0 == 3 * p2 * dg)
        by (nonlinear_arith)
        requires
            df == f1 - f0,
            dg == g1 - g0,
    ;
    let d = u * u * u;
    let n0 = 3 * p1 * f0 + 3 * p2 * g0 + h0;
    let n1 = 3 * p1 * f1 + 3 * p2 * g1 + h1;
    assert(u * (u * u) == d) by (nonlinear_arith)
        requires
            d == u * u * u,
    ;
    assert(n1 <= n0 + 22 * d);
    assert(d > 0) by (nonlinear_arith)
        requires
            d == u * u * u,
            u == 1_000_000,
    ;
    lemma_div_is_ordered(n1, n0 + 22 * d, d);
    lemma_fundamental_div_mod(n0, d);
    let q = n0 / d;
    let r = n0 % d;
    assert(n0 + 22 * d == (q + 22) * d + r) by (nonlinear_arith)
        requires
            n0 == d * q + r,
    ;
    lemma_fundamental_div_mod_converse(n0 + 22 * d, d, q + 22, r);
}

/// Bisection from a bracket `x(lo) < t <= x(hi)` whose width fits the
/// steps left lands on a parameter whose horizontal coordinate is within
/// the error bound of `t`.
proof fn lemma_bisect_within(a: int, c: int, t: int, lo: int, hi: int, steps: nat)
    requires
        -ONE <= a <= ONE,
        -ONE <= c <= ONE,
        0 <= lo < hi <= ONE,
        bezier(a, c, lo) < t <= bezier(a, c, hi),
        steps >= 1,
        hi - lo <= pow2((steps - 1) as nat),
    ensures
        t - bezier(a, c, bisect(a, c, t, lo, hi, steps)) < CUBIC_ERROR_BOUND,
        bezier(a, c, bisect(a, c, t, lo, hi, steps)) - t < CUBIC_ERROR_BOUND,
    decreases steps,
{
    let mid = (lo + hi) / 2;
    let est = bezier(a, c, mid);
    if hi - lo == 1 {
        assert(mid == lo);
        lemma_bezier_step(a, c, lo);
    } else {
        if steps <= 1 {
            lemma2_to64();
            assert(false);
        }
        lemma_pow2_unfold((steps - 1) as nat);
        if !(t - est < CUBIC_ERROR_BOUND && est - t < CUBIC_ERROR_BOUND) {
            if est < t {
                lemma_bisect_within(a, c, t, mid, hi, (steps - 1) as nat);
            } else {
                lemma_bisect_within(a, c, t, lo, mid, (steps - 1) as nat);
            }
        }
    }
}

/// A cubic whose inner control points lie horizontally within one unit of
/// zero eases every interior `t` to the vertical coordinate at a parameter
/// whose horizontal coordinate is within [`CUBIC_ERROR_BOUND`] of `t`: the
/// step cap never cuts the bisection short of that bound.
pub proof fn lemma_cubic_inverse_within_bound(cu: Cubic, t: int)
    requires
        -ONE <= cu.a <= ONE,
        -ONE <= cu.c <= ONE,
        0 < t < ONE,
    ensures
        ({
            let m = bisect(cu.a as int, cu.c as int, t, 0, ONE as int, MAX_BISECTION_STEPS as nat);
            &&& 0 <= m <= ONE
            &&& t - bezier(cu.a as int, cu.c as int, m) < CUBIC_ERROR_BOUND
            &&& bezier(cu.a as int, cu.c as int, m) - t < CUBIC_ERROR_BOUND
            &&& curve_at(Curve::Cubic(cu), t) == bezier(cu.b as int, cu.d as int, m)
        }),
{
    let u = ONE as int;
    assert(bezier(cu.a as int, cu.c as int, 0) == 0);
    assert(u * u * u * u == 1_000_000_000_000_000_000_000_000 && u * u * u
        == 1_000_000_000_000_000_000) by (nonlinear_arith)
        requires
            u == 1_000_000,
    ;
    assert(bezier(cu.a as int, cu.c as int, u) == u) by {
        assert((u - u) * (u - u) * u == 0 && (u - u) * u * u == 0) by (nonlinear_arith);
        assert(3 * cu.a * 0 + 3 * cu.c * 0 + u * u * u * u == 1_000_000_000_000_000_000_000_000)
            by (nonlinear_arith)
            requires
                u * u * u * u == 1_000_000_000_000_000_000_000_000,
        ;
        lemma_fundamental_div_mod_converse(
            1_000_000_000_000_000_000_000_000,
            1_000_000_000_000_000_000,
            1_000_000,
            0,
        );
    }
    lemma2_to64();
    lemma2_to64_rest();
    lemma_pow2_strictly_increases(20, 63);
    lemma_bisect_within(cu.a as int, cu.c as int, t, 0, u, MAX_BISECTION_STEPS as nat);
    lemma_bisect_range(cu.a as int, cu.c as int, t, 0, u, MAX_BISECTION_STEPS as nat);
}

proof fn lemma_bisect_range(a: int, c: int, t: int, lo: int, hi: int, steps: nat)
    requires
        0 <= lo <= hi <= ONE,
    ensures
        lo <= bisect(a, c, t, lo, hi, steps) <= hi,
    decreases steps,
{
    let mid = (lo + hi) / 2;
    let est = bezier(a, c, mid);
    if !(steps <= 1 || (t - est < CUBIC_ERROR_BOUND && est - t < CUBIC_ERROR_BOUND)) {
        if est < t {
            lemma_bisect_range(a, c, t, mid, hi, (steps - 1) as nat);
        } else {
            lemma_bisect_range(a, c, t, lo, mid, (steps - 1) as nat);
        }
    }
}

/// Every curve maps progress 0 to 0 and progress `ONE` to `ONE` exactly,
/// whatever its parameters: the plain curves, stepped, interval, split and
/// three-point curves alike.
pub proof fn lemma_curve_end_points(
    c: Curve,
    st: Stepped,
    iv: Interval,
    sp: Split,
    tp: ThreePointCubic,
)
    ensures
        curve_at(c, 0) == 0,
        curve_at(c, ONE as int) == ONE,
        stepped_curve_at(st, 0) == 0,
        stepped_curve_at(st, ONE as int) == ONE,
        interval_at(iv, 0) == 0,
        interval_at(iv, ONE as int) == ONE,
        split_at(sp, 0) == 0,
        split_at(sp, ONE as int) == ONE,
        three_point_at(tp, 0) == 0,
        three_point_at(tp, ONE as int) == ONE,
{
}

} // verus!
