//! A tween: one property's interpolation from an origin to a destination.
use crate::curves::{bounded, curve_at, in_unit, Curve};
use crate::fixed::ONE;
use crate::value::{
    blend, interpolable, kind_of, lemma_interpolable_kinds, lerp_spec, same_value, Value, ValueKind,
};
use vstd::prelude::*;

verus! {

/// One interpolated property. Durations and delays are milliseconds.
pub struct Tween {
    pub origin: Value,
    pub destination: Value,
    pub value: Value,
    pub duration: u64,
    pub delay: u64,
    pub curve: Curve,
}

impl Clone for Tween {
    fn clone(&self) -> (r: Self)
        ensures
            r == *self,
    {
        Tween {
            origin: self.origin.clone(),
            destination: self.destination.clone(),
            value: self.value.clone(),
            duration: self.duration,
            delay: self.delay,
            curve: self.curve,
        }
    }
}

/// A tween can be driven with `curve` over `duration` between values of
/// kind `k`: gradients only jump.
pub open spec fn animates(curve: Curve, duration: int, k: ValueKind) -> bool {
    &&& curve.wf()
    &&& (curve is Snap || duration == 0 || k != ValueKind::Gradient)
}

/// The progress, in `[0, ONE]`, of a tween `elapsed` milliseconds after
/// its delay.
pub open spec fn progress_at(elapsed: int, duration: int) -> int {
    let e = if elapsed < duration {
        elapsed
    } else {
        duration
    };
    e * ONE / duration
}

impl Tween {
    /// The tween can be advanced to `time`: past the delay, with an easing
    /// curve and a positive duration, it must interpolate between two values
    /// of one kind.
    pub open spec fn can_advance(self, time: int) -> bool {
        &&& self.curve.wf()
        &&& (time <= self.delay || self.curve is Snap || self.duration == 0 || interpolable(
            self.origin,
            self.destination,
        ))
    }

    /// The value after advancing to `time`.
    pub open spec fn value_at(self, time: int) -> Value {
        if time <= self.delay {
            self.value
        } else if self.curve is Snap || self.duration == 0 {
            self.destination
        } else {
            lerp_spec(
                self.origin,
                self.destination,
                curve_at(self.curve, progress_at(time - self.delay, self.duration as int)),
            )
        }
    }

    /// Origin, destination and current value are all of kind `k`.
    pub open spec fn of_kind(self, k: ValueKind) -> bool {
        &&& kind_of(self.origin) == k
        &&& kind_of(self.destination) == k
        &&& kind_of(self.value) == k
    }

    /// The tween after [`Tween::retarget`]: it takes `curve` and `duration`,
    /// and is redirected towards `value` unless already headed there.
    pub open spec fn retargeted(self, curve: Curve, value: Value, duration: u64) -> Tween {
        let t = Tween { curve, ..self };
        let t = if same_value(t.destination, value) {
            t
        } else {
            t.redirected(value)
        };
        Tween { duration, ..t }
    }

    /// The tween after retargeting and then advancing to `time`.
    pub open spec fn stepped(self, curve: Curve, value: Value, duration: u64, time: int) -> Tween {
        let t = self.retargeted(curve, value, duration);
        Tween { value: t.value_at(time), ..t }
    }

    /// The tween after [`Tween::to`] redirects it towards `value`.
    pub open spec fn redirected(self, value: Value) -> Tween {
        Tween { origin: self.value, destination: value, ..self }
    }

    pub open spec fn new_spec(origin: Value, destination: Value) -> Tween {
        Tween {
            origin,
            destination,
            value: origin,
            duration: 0,
            delay: 0,
            curve: Curve::Linear(crate::curves::Linear),
        }
    }

    pub open spec fn with_curve(self, curve: Curve) -> Tween {
        Tween { curve, ..self }
    }

    pub open spec fn with_duration(self, duration: u64) -> Tween {
        Tween { duration, ..self }
    }

    pub open spec fn with_delay(self, delay: u64) -> Tween {
        Tween { delay, ..self }
    }

    /// A tween resting at `origin`, headed for `destination`, linear, with
    /// no duration and no delay.
    pub fn new(origin: Value, destination: Value) -> (t: Tween)
        ensures
            t == Tween::new_spec(origin, destination),
    {
        Tween {
            origin: origin.clone(),
            destination,
            value: origin,
            duration: 0,
            delay: 0,
            curve: Curve::Linear(crate::curves::Linear),
        }
    }

    pub fn set_duration(&mut self, millis: u64)
        ensures
            *final(self) == (Tween { duration: millis, ..*old(self) }),
    {
        self.duration = millis;
    }

    pub fn set_curve(&mut self, curve: Curve)
        ensures
            *final(self) == (Tween { curve, ..*old(self) }),
    {
        self.curve = curve;
    }

    pub fn set_delay(&mut self, millis: u64)
        ensures
            *final(self) == (Tween { delay: millis, ..*old(self) }),
    {
        self.delay = millis;
    }

    /// Resets both the origin and the current value to `value`.
    pub fn set(&mut self, value: Value)
        ensures
            *final(self) == (Tween { origin: value, value, ..*old(self) }),
    {
        self.origin = value.clone();
        self.value = value;
    }

    /// Redirects towards `value`, starting over from the current value.
    pub fn to(&mut self, value: Value)
        ensures
            *final(self) == old(self).redirected(value),
    {
        self.origin = self.value.clone();
        self.destination = value;
    }

    pub fn curve(self, curve: Curve) -> (t: Tween)
        ensures
            t == self.with_curve(curve),
    {
        Tween { curve, ..self }
    }

    pub fn duration(self, millis: u64) -> (t: Tween)
        ensures
            t == self.with_duration(millis),
    {
        Tween { duration: millis, ..self }
    }

    pub fn delay(self, millis: u64) -> (t: Tween)
        ensures
            t == self.with_delay(millis),
    {
        Tween { delay: millis, ..self }
    }

    /// Whether the tween has run its course by `time`.
    pub fn is_done(&self, time: u128) -> (r: bool)
        ensures
            r == (time >= self.delay + self.duration),
    {
        time >= self.delay as u128 + self.duration as u128
    }

    /// Takes a new curve and duration, and redirects towards `value` when
    /// that is not already the destination.
    pub fn retarget(&mut self, curve: Curve, value: &Value, duration: u64)
        ensures
            *final(self) == old(self).retargeted(curve, *value, duration),
    {
        self.curve = curve;
        if !self.destination.same_as(value) {
            self.to(value.clone());
        }
        self.duration = duration;
    }

    /// Retargets, then advances to `time`; see [`Tween::stepped`].
    pub fn step(&mut self, curve: Curve, value: &Value, duration: u64, time: u64)
        requires
            old(self).of_kind(kind_of(old(self).value)),
            kind_of(*value) == kind_of(old(self).value),
            animates(curve, duration as int, kind_of(old(self).value)),
        ensures
            *final(self) == old(self).stepped(curve, *value, duration, time as int),
            final(self).of_kind(kind_of(old(self).value)),
    {
        self.retarget(curve, value, duration);
        proof {
            lemma_kind_kept(*self, kind_of(old(self).value), time as int);
        }
        self.advance(time);
    }

    /// The progress in `[0, ONE]` at `time`, for a host that eases it
    /// itself; `None` while the delay lasts or with no duration.
    pub fn progress(&self, time: u64) -> (p: Option<i64>)
        ensures
            p == if time <= self.delay || self.duration == 0 {
                None::<i64>
            } else {
                Some(progress_at(time - self.delay, self.duration as int) as i64)
            },
            p matches Some(x) ==> in_unit(x as int),
    {
        if time <= self.delay || self.duration == 0 {
            return None;
        }
        let elapsed: u64 = time - self.delay;
        let e: u64 = if elapsed < self.duration {
            elapsed
        } else {
            self.duration
        };
        assert(e * ONE <= self.duration * ONE) by (nonlinear_arith)
            requires
                e <= self.duration,
        ;
        proof {
            vstd::arithmetic::div_mod::lemma_div_is_ordered(
                e * ONE,
                self.duration * ONE,
                self.duration as int,
            );
            vstd::arithmetic::div_mod::lemma_div_multiples_vanish(ONE as int, self.duration as int);
            assert(self.duration * ONE == ONE * self.duration) by (nonlinear_arith);
        }
        Some((e as u128 * ONE as u128 / self.duration as u128) as i64)
    }

    /// Like [`Tween::advance`], but interpolates at `eased`, an eased
    /// progress the host computed from [`Tween::progress`] with a curve of
    /// its own.
    pub fn advance_eased(&mut self, time: u64, eased: i64)
        requires
            bounded(eased as int),
            time <= old(self).delay || old(self).duration == 0 || interpolable(
                old(self).origin,
                old(self).destination,
            ),
        ensures
            *final(self) == (Tween {
                value: if time <= old(self).delay {
                    old(self).value
                } else if old(self).duration == 0 {
                    old(self).destination
                } else {
                    lerp_spec(old(self).origin, old(self).destination, eased as int)
                },
                ..*old(self)
            }),
    {
        if time > self.delay {
            if self.duration == 0 {
                self.value = self.destination.clone();
            } else {
                self.value = self.origin.lerp(&self.destination, eased);
            }
        }
    }

    /// Moves the current value to where it stands at `time` milliseconds.
    pub fn advance(&mut self, time: u64)
        requires
            old(self).can_advance(time as int),
        ensures
            *final(self) == (Tween { value: old(self).value_at(time as int), ..*old(self) }),
    {
        if time > self.delay {
            if matches!(self.curve, Curve::Snap) || self.duration == 0 {
                self.value = self.destination.clone();
            } else {
                let elapsed: u64 = time - self.delay;
                let e: u64 = if elapsed < self.duration {
                    elapsed
                } else {
                    self.duration
                };
                assert(e * ONE <= self.duration * ONE) by (nonlinear_arith)
                    requires
                        e <= self.duration,
                ;
                assert(e * ONE <= u64::MAX * ONE);
                let p: u128 = e as u128 * ONE as u128 / self.duration as u128;
                proof {
                    vstd::arithmetic::div_mod::lemma_div_is_ordered(
                        e * ONE,
                        self.duration * ONE,
                        self.duration as int,
                    );
                    vstd::arithmetic::div_mod::lemma_div_multiples_vanish(
                        ONE as int,
                        self.duration as int,
                    );
                    assert(self.duration * ONE == ONE * self.duration) by (nonlinear_arith);
                }
                let x: i64 = self.curve.transform(p as i64);
                self.value = self.origin.lerp(&self.destination, x);
            }
        }
    }
}

/// A tween whose values share a kind it animates can be advanced to any
/// time, and keeps that kind.
pub proof fn lemma_kind_kept(tw: Tween, k: ValueKind, time: int)
    requires
        tw.of_kind(k),
        animates(tw.curve, tw.duration as int, k),
    ensures
        tw.can_advance(time),
        kind_of(tw.value_at(time)) == k,
{
    lemma_interpolable_kinds(tw.origin, tw.destination, 0);
    if time > tw.delay && !(tw.curve is Snap) && tw.duration != 0 {
        lemma_interpolable_kinds(
            tw.origin,
            tw.destination,
            curve_at(tw.curve, progress_at(time - tw.delay, tw.duration as int)),
        );
    }
}

/// Interpolating at the full progress `ONE` lands on the destination.
pub proof fn lemma_lerp_at_end(a: Value, b: Value)
    requires
        interpolable(a, b),
    ensures
        lerp_spec(a, b, ONE as int) == b,
{
    assert forall|x: int, y: int| #[trigger] blend(x, y, ONE as int) == y by {
        assert(x * (ONE - ONE) + y * ONE == y * ONE) by (nonlinear_arith);
        vstd::arithmetic::div_mod::lemma_div_multiples_vanish(y, ONE as int);
        assert(y * ONE == ONE * y) by (nonlinear_arith);
    }
}

/// A tween that rests at its origin still shows the origin when advanced
/// to the end of its delay, and shows its destination when advanced to the
/// end of its delay plus its duration.
pub proof fn lemma_tween_round_trip(tw: Tween)
    requires
        tw.value == tw.origin,
        tw.duration > 0,
        tw.can_advance(tw.delay + tw.duration),
    ensures
        tw.value_at(tw.delay as int) == tw.origin,
        tw.value_at(tw.delay + tw.duration) == tw.destination,
{
    let d = tw.duration as int;
    assert(progress_at(d, d) == ONE) by {
        vstd::arithmetic::div_mod::lemma_div_multiples_vanish(ONE as int, d);
        assert(d * ONE == ONE * d) by (nonlinear_arith);
    }
    if !(tw.curve is Snap) {
        lemma_lerp_at_end(tw.origin, tw.destination);
    }
}

/// A tween advanced to any time at or past the end of its delay plus its
/// duration shows its destination, once past its delay.
pub proof fn lemma_tween_settles(tw: Tween, time: int)
    requires
        time >= tw.delay + tw.duration,
        time > tw.delay,
        tw.can_advance(time),
    ensures
        tw.value_at(time) == tw.destination,
{
    if tw.duration > 0 && !(tw.curve is Snap) {
        let d = tw.duration as int;
        assert(progress_at(time - tw.delay, d) == ONE) by {
            vstd::arithmetic::div_mod::lemma_div_multiples_vanish(ONE as int, d);
            assert(d * ONE == ONE * d) by (nonlinear_arith);
        }
        lemma_lerp_at_end(tw.origin, tw.destination);
    }
}

pub open spec fn abs(x: int) -> int {
    if x < 0 {
        -x
    } else {
        x
    }
}

/// After a linear number tween is redirected from `w` towards `v`, its
/// value at any later time lies within `|v - w|` times the progress of `w`
/// (plus one unit of rounding): the redirection makes no jump, and the
/// value moves away from `w` only as fast as the progress grows.
pub proof fn lemma_redirect_moves_gradually(tw: Tween, w: i64, v: i64, time: int)
    requires
        tw.origin == Value::Number(w),
        tw.value == Value::Number(w),
        tw.destination == Value::Number(v),
        tw.curve == Curve::Linear(crate::curves::Linear),
        tw.duration > 0,
        time > tw.delay,
    ensures
        ({
            let p = progress_at(time - tw.delay, tw.duration as int);
            let n = tw.value_at(time)->Number_0 as int;
            &&& tw.value_at(time) is Number
            &&& abs(n - w) * ONE <= abs(v - w) * p + ONE
        }),
{
    let d = tw.duration as int;
    let e = if time - tw.delay < d {
        time - tw.delay
    } else {
        d
    };
    let p = progress_at(time - tw.delay, d);
    assert(0 <= e * ONE <= d * ONE) by (nonlinear_arith)
        requires
            0 <= e <= d,
    ;
    vstd::arithmetic::div_mod::lemma_div_is_ordered(e * ONE, d * ONE, d);
    vstd::arithmetic::div_mod::lemma_div_is_ordered(0, e * ONE, d);
    vstd::arithmetic::div_mod::lemma_div_multiples_vanish(ONE as int, d);
    assert(d * ONE == ONE * d) by (nonlinear_arith);
    assert(0 <= p <= ONE);
    assert(curve_at(tw.curve, p) == p);
    let u = ONE as int;
    let b = (v - w) * p;
    assert(w * (u - p) + v * p == w * u + b) by (nonlinear_arith)
        requires
            b == (v - w) * p,
    ;
    vstd::arithmetic::div_mod::lemma_fundamental_div_mod(b, u);
    let q = b / u;
    let r = b % u;
    assert(w * u + b == (w + q) * u + r) by (nonlinear_arith)
        requires
            b == u * q + r,
    ;
    vstd::arithmetic::div_mod::lemma_fundamental_div_mod_converse(w * u + b, u, w + q, r);
    assert(blend(w as int, v as int, p) == w + q);
    assert(abs(q) * u <= abs(b) + u) by (nonlinear_arith)
        requires
            b == u * q + r,
            0 <= r < u,
            u > 0,
    ;
    assert(abs(b) == abs(v - w) * p) by (nonlinear_arith)
        requires
            b == (v - w) * p,
            p >= 0,
    ;
}

/// Redirecting a tween leaves its current value where it was, so the
/// animated property does not jump.
pub proof fn lemma_redirect_is_continuous(tw: Tween, value: Value)
    ensures
        tw.redirected(value).value == tw.value,
        tw.redirected(value).origin == tw.value,
        tw.redirected(value).destination == value,
{
}

} // verus!
