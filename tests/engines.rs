use freya_transition::animations::keyframe::KeyFrameAnimation;
use freya_transition::animations::path::PathAnimation;
use freya_transition::curves::Curve;
use freya_transition::fixed::ONE;
use freya_transition::trait_based::{Animation, Context, TraitBasedAnimation};
use freya_transition::tween::Tween;
use freya_transition::tween_set::TweenSet;
use freya_transition::value::Value;

fn number(v: &Value) -> i64 {
    match v {
        Value::Number(n) => *n,
        _ => panic!("expected a number"),
    }
}

#[test]
fn tween_set_replaces_in_place() {
    let mut set = TweenSet::new();
    set.insert("a".to_string(), Tween::new(Value::Number(1), Value::Number(1)));
    set.insert("b".to_string(), Tween::new(Value::Number(2), Value::Number(2)));
    set.insert("a".to_string(), Tween::new(Value::Number(3), Value::Number(3)));
    assert_eq!(set.len(), 2);
    assert_eq!(set.position("a"), Some(0));
    assert_eq!(set.position("b"), Some(1));
    assert_eq!(set.position("c"), None);
    assert_eq!(number(set.value("a")), 3);
    assert_eq!(set.name_at(1).as_str(), "b");
    set.set_tween(1, Tween::new(Value::Number(9), Value::Number(9)));
    assert_eq!(number(&set.tween_at(1).value), 9);
    assert_eq!(set.name_at(1).as_str(), "b");
}

#[test]
fn per_property_path_run() {
    let mut ctx = Context::new();
    ctx.add_tween("x".to_string(), Value::Number(0));
    ctx.add_tween("y".to_string(), Value::Number(0));
    let mut a = TraitBasedAnimation::new(ctx);
    let path = PathAnimation::new()
        .initial(Value::Number(10 * ONE))
        .insert(Value::Number(20 * ONE), Curve::linear(), 100);
    let token = a.play("x", Animation::Path(path));
    assert!(a.is_playing());
    assert!(a.peek_has_run_yet());
    assert_eq!(number(&a.get("x")), 10 * ONE);
    assert!(a.tick(token, 50));
    assert_eq!(number(&a.get("x")), 15 * ONE);
    assert!(!a.tick(token, 60));
    assert_eq!(number(&a.get("x")), 20 * ONE);
    assert!(!a.is_playing());
    assert_eq!(number(&a.get("y")), 0);
}

#[test]
fn per_property_keyframes_and_cancel() {
    let mut ctx = Context::new();
    ctx.add_tween("x".to_string(), Value::Number(0));
    let mut a = TraitBasedAnimation::new(ctx);
    let frames = KeyFrameAnimation::new()
        .keyframe_at(0, Value::Number(0), None)
        .keyframe_at(ONE / 2, Value::Number(5 * ONE), None)
        .duration(100);
    let first = a.play("x", Animation::KeyFrame(frames));
    assert!(a.tick(first, 60));
    assert_eq!(number(&a.get("x")), 5 * ONE);
    let frames = KeyFrameAnimation::new()
        .keyframe_at(0, Value::Number(ONE), Some(Curve::linear()))
        .duration(100);
    let second = a.play("x", Animation::KeyFrame(frames));
    assert!(!a.tick(first, 10));
    assert!(a.tick(second, 50));
    assert_eq!(number(&a.get("x")), 3 * ONE);
    a.cancel("x");
    assert!(!a.tick(second, 10));
    a.set("x", Value::Number(7 * ONE));
    assert_eq!(number(&a.get("x")), 7 * ONE);
    a.cancel_all();
}
