use freya_transition::curves::{
    BounceInCurve, BounceInOutCurve, BounceOutCurve, Cubic, Curve, DecelerateCurve, Interval,
    Linear, Split, Stepped, ThreePointCubic,
};
use freya_transition::fixed::ONE;

fn all_curves() -> Vec<Curve> {
    vec![
        Curve::linear(),
        Curve::decelerate(),
        Curve::bounce_in(),
        Curve::bounce_out(),
        Curve::bounce_in_out(),
        Curve::threshold(ONE / 2),
        Curve::saw_tooth(3 * ONE),
        Curve::fast_linear_to_slow_ease_in(),
        Curve::ease(),
        Curve::ease_in(),
        Curve::ease_in_to_linear(),
        Curve::ease_in_sine(),
        Curve::ease_in_quad(),
        Curve::ease_in_cubic(),
        Curve::ease_in_quart(),
        Curve::ease_in_quint(),
        Curve::ease_in_expo(),
        Curve::ease_in_circ(),
        Curve::ease_in_back(),
        Curve::ease_out(),
        Curve::linear_to_ease_out(),
        Curve::ease_out_sine(),
        Curve::ease_out_quad(),
        Curve::ease_out_cubic(),
        Curve::ease_out_quart(),
        Curve::ease_out_quint(),
        Curve::ease_out_expo(),
        Curve::ease_out_circ(),
        Curve::ease_out_back(),
        Curve::ease_in_out(),
        Curve::ease_in_out_sine(),
        Curve::ease_in_out_quad(),
        Curve::ease_in_out_cubic(),
        Curve::ease_in_out_quart(),
        Curve::ease_in_out_quint(),
        Curve::ease_in_out_expo(),
        Curve::ease_in_out_circ(),
        Curve::ease_in_out_back(),
        Curve::fast_out_slow_in(),
        Curve::slow_middle(),
    ]
}

#[test]
fn every_curve_fixes_the_end_points() {
    for c in all_curves() {
        assert_eq!(c.transform(0), 0);
        assert_eq!(c.transform(ONE), ONE);
    }
    assert_eq!(Curve::Snap.transform(0), 0);
    assert_eq!(Curve::Snap.transform(ONE), ONE);
    let st = Stepped::new(4);
    assert_eq!(st.transform(0), 0);
    assert_eq!(st.transform(ONE), ONE);
    let iv = Interval::new(ONE / 4, 3 * ONE / 4, Curve::ease());
    assert_eq!(iv.transform(0), 0);
    assert_eq!(iv.transform(ONE), ONE);
    let sp = Split::new(ONE / 3, Curve::ease_in(), Curve::ease_out());
    assert_eq!(sp.transform(0), 0);
    assert_eq!(sp.transform(ONE), ONE);
}

fn bezier(p1: f64, p2: f64, m: f64) -> f64 {
    3.0 * p1 * (1.0 - m) * (1.0 - m) * m + 3.0 * p2 * (1.0 - m) * m * m + m * m * m
}

/// The vertical coordinate where the horizontal one is `t`, by a fine
/// bisection in floating point.
fn true_ease(c: &Cubic, t: f64) -> f64 {
    let (a, b, cc, d) = (
        c.a as f64 / ONE as f64,
        c.b as f64 / ONE as f64,
        c.c as f64 / ONE as f64,
        c.d as f64 / ONE as f64,
    );
    let (mut lo, mut hi) = (0.0f64, 1.0f64);
    for _ in 0..200 {
        let mid = (lo + hi) / 2.0;
        if bezier(a, cc, mid) < t {
            lo = mid;
        } else {
            hi = mid;
        }
    }
    bezier(b, d, (lo + hi) / 2.0)
}

#[test]
fn cubic_bisection_tracks_the_bezier_inverse() {
    let presets = [
        Curve::ease(),
        Curve::ease_in(),
        Curve::ease_out(),
        Curve::ease_in_out(),
        Curve::fast_out_slow_in(),
        Curve::ease_in_out_back(),
        Curve::ease_out_back(),
    ];
    for c in presets.iter() {
        let cubic = match c {
            Curve::Cubic(cu) => *cu,
            _ => panic!("expected a cubic"),
        };
        for i in 1..100 {
            let t = ONE * i / 100;
            let got = c.transform(t) as f64 / ONE as f64;
            let want = true_ease(&cubic, t as f64 / ONE as f64);
            assert!((got - want).abs() < 0.02, "t={} got={} want={}", t, got, want);
            // The result is the vertical coordinate at some parameter whose
            // horizontal coordinate is within 0.001 of t.
            let (a, b, cc, d) = (
                cubic.a as f64 / ONE as f64,
                cubic.b as f64 / ONE as f64,
                cubic.c as f64 / ONE as f64,
                cubic.d as f64 / ONE as f64,
            );
            let (mut lo, mut hi) = (f64::MAX, f64::MIN);
            for j in 0..=20_000 {
                let m = j as f64 / 20_000.0;
                if (bezier(a, cc, m) - t as f64 / ONE as f64).abs() < 0.001 {
                    let y = bezier(b, d, m);
                    lo = lo.min(y);
                    hi = hi.max(y);
                }
            }
            assert!(lo - 1e-4 <= got && got <= hi + 1e-4, "t={} got={}", t, got);
            assert_eq!(cubic.transform(t), c.transform(t));
        }
    }
}

#[test]
fn decelerate_at_half() {
    assert_eq!(Curve::Decelerate(DecelerateCurve).transform(ONE / 2), 750_000);
    assert_eq!(Curve::linear().transform(123_456), 123_456);
    assert_eq!(Curve::Linear(Linear).transform(ONE / 3), ONE / 3);
}

#[test]
fn bounce_values() {
    assert_eq!(Curve::BounceOut(BounceOutCurve).transform(ONE / 2), 765_625);
    assert_eq!(Curve::BounceIn(BounceInCurve).transform(ONE / 2), 234_375);
    // 0.25: the in-out bounce is half a bounce-in at 0.5.
    assert_eq!(Curve::BounceInOut(BounceInOutCurve).transform(ONE / 4), 117_187);
    assert_eq!(Curve::BounceInOut(BounceInOutCurve).transform(3 * ONE / 4), 882_812);
}

#[test]
fn threshold_and_saw_tooth() {
    let th = Curve::threshold(ONE / 2);
    assert_eq!(th.transform(ONE / 2 - 1), 0);
    assert_eq!(th.transform(ONE / 2), ONE);
    let saw = Curve::saw_tooth(3 * ONE);
    assert_eq!(saw.transform(ONE / 2), ONE / 2);
    assert_eq!(saw.transform(ONE / 3), 999_999);
    let back = Curve::saw_tooth(-3 * ONE);
    assert_eq!(back.transform(ONE / 2), -ONE / 2);
}

#[test]
fn stepped_rounding_modes() {
    let st = Stepped::new(4);
    assert_eq!(st.transform(300_000), 250_000);
    assert_eq!(st.transform(400_000), 500_000);
    let mut first = Stepped::new(4);
    first.initial_step_single_frame();
    assert!(first.is_initial_step_single_frame);
    assert_eq!(first.transform(300_000), 500_000);
    assert_eq!(first.transform(1), 250_000);
    let mut last = Stepped::new(4);
    last.final_step_single_frame();
    assert!(last.is_final_step_single_frame);
    assert_eq!(last.transform(400_000), 250_000);
    assert_eq!(last.transform(ONE - 1), 750_000);
}

#[test]
fn interval_clamps_outside() {
    let iv = Interval::new(ONE / 4, 3 * ONE / 4, Curve::linear());
    assert_eq!(iv.transform(ONE / 10), 0);
    assert_eq!(iv.transform(ONE / 2), ONE / 2);
    assert_eq!(iv.transform(9 * ONE / 10), ONE);
    let point = Interval::new(ONE / 2, ONE / 2, Curve::linear());
    assert_eq!(point.transform(ONE / 4), 0);
    assert_eq!(point.transform(ONE / 2), ONE);
}

#[test]
fn split_rescales_each_half() {
    let sp = Split::new(ONE / 2, Curve::linear(), Curve::decelerate());
    assert_eq!(sp.transform(ONE / 4), ONE / 4);
    assert_eq!(sp.transform(ONE / 2), ONE / 2);
    // The second half at its middle: decelerate gives 0.75 of the way.
    assert_eq!(sp.transform(3 * ONE / 4), 875_000);
}

#[test]
fn three_point_cubic_parts() {
    // Both parts linear: the joint at (0.5, 0.5).
    let tp = ThreePointCubic::new(
        (ONE / 6, ONE / 6),
        (ONE / 3, ONE / 3),
        (ONE / 2, ONE / 2),
        (2 * ONE / 3, 2 * ONE / 3),
        (5 * ONE / 6, 5 * ONE / 6),
    );
    assert_eq!(tp.transform(0), 0);
    assert_eq!(tp.transform(ONE), ONE);
    assert!((tp.transform(ONE / 4) - ONE / 4).abs() < 2_000);
    assert!((tp.transform(3 * ONE / 4) - 3 * ONE / 4).abs() < 2_000);
    // A flat first part: the joint's height is 0.
    let flat = ThreePointCubic::new((ONE / 4, 0), (ONE / 2, 0), (ONE / 2, 0), (3 * ONE / 4, ONE / 2), (ONE, ONE));
    assert_eq!(flat.transform(ONE / 4), 0);
    // A joint above the top.
    let high = ThreePointCubic::new((0, ONE), (ONE / 4, 2 * ONE), (ONE / 2, 2 * ONE), (ONE, 2 * ONE), (ONE, ONE));
    assert!(high.transform(ONE / 2) == 2 * ONE);
}
