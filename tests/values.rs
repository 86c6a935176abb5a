use freya_transition::curves::Curve;
use freya_transition::fixed::ONE;
use freya_transition::gradient::Gradient;
use freya_transition::tween::Tween;
use freya_transition::value::{lerp_number, Color, Point, Value, ValueKind};

#[test]
fn number_lerp_midpoint() {
    assert_eq!(lerp_number(0, 100 * ONE, ONE / 2), 50 * ONE);
    assert_eq!(lerp_number(10 * ONE, 20 * ONE, 0), 10 * ONE);
    assert_eq!(lerp_number(10 * ONE, 20 * ONE, ONE), 20 * ONE);
    // Overshoot is not clamped.
    assert_eq!(lerp_number(0, 10 * ONE, 3 * ONE / 2), 15 * ONE);
    // Far out of range it saturates.
    assert_eq!(lerp_number(0, i64::MAX, 2 * ONE), i64::MAX);
}

#[test]
fn color_lerp_truncates() {
    let a = Color::from_argb(255, 0, 0, 0);
    let b = Color::from_argb(255, 255, 10, 3);
    let c = a.lerp(&b, ONE / 2);
    assert_eq!(c, Color::from_argb(255, 127, 5, 1));
    // Overshoot saturates each channel.
    let over = a.lerp(&b, 2 * ONE);
    assert_eq!(over.r, 255);
    let under = b.lerp(&a, 2 * ONE);
    assert_eq!(under.r, 0);
    assert_eq!(Color::from_rgb(1, 2, 3).a, 255);
}

#[test]
fn point_and_value_lerp() {
    let p = Point::new(0, 10 * ONE).lerp(&Point::new(10 * ONE, 0), ONE / 4);
    assert_eq!(p, Point::new(5 * ONE / 2, 15 * ONE / 2));
    let v = Value::Number(0).lerp(&Value::Number(8 * ONE), ONE / 4);
    assert!(v.same_as(&Value::Number(2 * ONE)));
    let g = Value::Gradient("linear-gradient(red, blue)".to_string());
    assert!(g.same_as(&Value::Gradient("linear-gradient(red, blue)".to_string())));
    assert!(!g.same_as(&Value::Gradient("linear-gradient(red)".to_string())));
    assert!(!g.same_as(&Value::Number(0)));
    assert_eq!(g.kind(), ValueKind::Gradient);
    assert_eq!(Value::Point(Point::new(1, 2)).kind(), ValueKind::Point);
}

fn number(v: &Value) -> i64 {
    match v {
        Value::Number(n) => *n,
        _ => panic!("expected a number"),
    }
}

#[test]
fn tween_round_trip() {
    let mut tw = Tween::new(Value::Number(10 * ONE), Value::Number(30 * ONE))
        .duration(200)
        .delay(50)
        .curve(Curve::ease_in_out());
    tw.advance(50);
    assert_eq!(number(&tw.value), 10 * ONE);
    tw.advance(250);
    assert_eq!(number(&tw.value), 30 * ONE);
    assert!(tw.is_done(250));
    assert!(!tw.is_done(249));
}

#[test]
fn tween_linear_progress_and_clamp() {
    let mut tw = Tween::new(Value::Number(0), Value::Number(100 * ONE)).duration(200);
    tw.advance(50);
    assert_eq!(number(&tw.value), 25 * ONE);
    tw.advance(1_000);
    assert_eq!(number(&tw.value), 100 * ONE);
}

#[test]
fn redirect_keeps_the_current_value() {
    let mut tw = Tween::new(Value::Number(0), Value::Number(100 * ONE)).duration(100);
    tw.advance(40);
    let before = number(&tw.value);
    tw.to(Value::Number(0));
    assert_eq!(number(&tw.value), before);
    assert_eq!(number(&tw.origin), before);
    tw.advance(50);
    assert_eq!(number(&tw.value), 20 * ONE);
}

#[test]
fn zero_duration_and_snap_jump() {
    let mut tw = Tween::new(Value::Number(0), Value::Number(7 * ONE));
    tw.advance(1);
    assert_eq!(number(&tw.value), 7 * ONE);
    let g = Value::Gradient("linear-gradient(red, blue)".to_string());
    let mut snap = Tween::new(Value::Gradient("a".to_string()), g.clone())
        .duration(100)
        .curve(Curve::Snap);
    snap.advance(0);
    assert!(snap.value.same_as(&Value::Gradient("a".to_string())));
    snap.advance(10);
    assert!(snap.value.same_as(&g));
}

#[test]
fn tween_set_resets_origin() {
    let mut tw = Tween::new(Value::Number(0), Value::Number(ONE)).duration(10);
    tw.set(Value::Number(5 * ONE));
    assert_eq!(number(&tw.origin), 5 * ONE);
    assert_eq!(number(&tw.value), 5 * ONE);
    assert_eq!(number(&tw.destination), ONE);
    tw.set_duration(20);
    tw.set_delay(3);
    tw.set_curve(Curve::decelerate());
    assert_eq!(tw.duration, 20);
    assert_eq!(tw.delay, 3);
    assert!(tw.curve == Curve::decelerate());
}

#[test]
fn gradient_descriptor_text() {
    let v = Gradient::linear()
        .stop(0, Color::from_rgb(255, 0, 0))
        .stop(ONE / 2, Color::from_argb(128, 0, 0, 255))
        .stop(333_333, Color::from_rgb(1, 2, 3))
        .build();
    match &v {
        Value::Gradient(s) => assert_eq!(
            s.as_str(),
            "linear-gradient(rgb(255, 0, 0, 255) 0%, rgb(0, 0, 255, 128) 50%, rgb(1, 2, 3, 255) 33.3333%)"
        ),
        _ => panic!("expected a gradient"),
    }
    assert_eq!(v.describe().as_str(), "linear-gradient(rgb(255, 0, 0, 255) 0%, rgb(0, 0, 255, 128) 50%, rgb(1, 2, 3, 255) 33.3333%)");
    let r = Gradient::radial().stop(ONE, Color::from_rgb(0, 0, 0)).build();
    assert_eq!(r.describe().as_str(), "radial-gradient(rgb(0, 0, 0, 255) 100%)");
    assert_eq!(Gradient::conic().build().describe().as_str(), "conic-gradient()");
    assert_eq!(Value::Color(Color::from_rgb(10, 20, 30)).describe().as_str(), "rgb(10, 20, 30, 255)");
}

#[test]
fn value_accessors() {
    assert_eq!(Value::Number(42).as_number(), 42);
    assert_eq!(Value::Color(Color::from_rgb(1, 2, 3)).as_color(), Color::from_rgb(1, 2, 3));
    assert_eq!(Value::Point(Point::new(4, 5)).as_point(), Point::new(4, 5));
}

#[test]
fn host_eased_tween() {
    let mut tw = Tween::new(Value::Number(0), Value::Number(10 * ONE)).duration(100).delay(10);
    assert_eq!(tw.progress(10), None);
    assert_eq!(tw.progress(60), Some(ONE / 2));
    assert_eq!(tw.progress(500), Some(ONE));
    tw.advance_eased(60, 3 * ONE / 2);
    assert_eq!(number(&tw.value), 15 * ONE);
}

#[test]
fn gradient_negative_stop() {
    let v = Gradient::linear().stop(-ONE / 4, Color::from_rgb(0, 0, 0)).build();
    assert_eq!(v.describe().as_str(), "linear-gradient(rgb(0, 0, 0, 255) -25%)");
}
