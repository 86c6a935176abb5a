use freya_transition::animations::keyframe::KeyFrameAnimation;
use freya_transition::animations::path::PathAnimation;
use freya_transition::curves::Curve;
use freya_transition::fixed::ONE;
use freya_transition::playback::Playback;
use freya_transition::segmented_animation::{Context as SegmentContext, SegmentedAnimation};
use freya_transition::state_based::{Context as StateContext, State, Transition as StateTransition};
use freya_transition::tween::Tween;
use freya_transition::value::Value;
use freya_transition::value_based::{Context, Transition};

fn number(v: &Value) -> i64 {
    match v {
        Value::Number(n) => *n,
        _ => panic!("expected a number"),
    }
}

#[test]
fn path_segments_chain() {
    let path = PathAnimation::new()
        .insert(Value::Number(100 * ONE), Curve::linear(), 100)
        .insert(Value::Number(300 * ONE), Curve::linear(), 100);
    assert_eq!(path.get_duration(), 200);
    let mut tw = Tween::new(Value::Number(0), Value::Number(0));
    path.init(&mut tw);
    path.advance(&mut tw, 0);
    assert_eq!(number(&tw.value), 0);
    path.advance(&mut tw, 50);
    assert_eq!(number(&tw.value), 50 * ONE);
    // The second segment starts from where the first one left the value.
    path.advance(&mut tw, 100);
    assert_eq!(number(&tw.value), 50 * ONE);
    assert_eq!(number(&tw.origin), 50 * ONE);
    path.advance(&mut tw, 150);
    assert_eq!(number(&tw.value), 175 * ONE);
    path.advance(&mut tw, 200);
    assert_eq!(number(&tw.value), 175 * ONE);
}

#[test]
fn path_initial_and_gap() {
    let path = PathAnimation::new()
        .initial(Value::Number(ONE))
        .insert_delayed(Value::Number(3 * ONE), Curve::linear(), 100, 50);
    assert_eq!(path.get_duration(), 150);
    assert_eq!(path.segments.get_index(0).unwrap().0.start, 50);
    assert_eq!(path.find_segment(60), Some(0));
    assert_eq!(path.find_segment(10), None);
    let mut tw = Tween::new(Value::Number(0), Value::Number(0));
    path.init(&mut tw);
    assert_eq!(number(&tw.value), ONE);
    path.advance(&mut tw, 20);
    assert_eq!(number(&tw.value), ONE);
    path.advance(&mut tw, 100);
    assert_eq!(number(&tw.value), 2 * ONE);
}

#[test]
fn keyframes_forward_and_back() {
    let mut anim = KeyFrameAnimation::new()
        .keyframe_at(0, Value::Number(0), None)
        .keyframe_at(ONE / 2, Value::Number(10 * ONE), None)
        .keyframe_at(ONE, Value::Number(20 * ONE), None)
        .duration(1000);
    let mut tw = Tween::new(Value::Number(0), Value::Number(0)).duration(1000);
    anim.advance(&mut tw, 0);
    assert_eq!(anim.current_frame, Some(0));
    assert_eq!(number(&tw.value), 0);
    anim.advance(&mut tw, 500);
    assert_eq!(anim.current_frame, Some(1));
    assert_eq!(number(&tw.value), 10 * ONE);
    anim.advance(&mut tw, 1000);
    assert_eq!(anim.current_frame, Some(2));
    assert_eq!(number(&tw.value), 20 * ONE);
    anim.advance(&mut tw, 200);
    assert_eq!(anim.current_frame, Some(0));
    assert_eq!(number(&tw.value), 0);
}

#[test]
fn keyframe_cursor_scans_forward() {
    let mut anim = KeyFrameAnimation::new()
        .keyframe_at(0, Value::Number(0), None)
        .keyframe_at(ONE / 4, Value::Number(ONE), None)
        .keyframe_at(ONE / 2, Value::Number(2 * ONE), None)
        .keyframe_at(3 * ONE / 4, Value::Number(3 * ONE), None)
        .duration(100);
    anim.update_current_keyframe(ONE / 3);
    assert_eq!(anim.current_frame, Some(1));
    anim.update_current_keyframe(4 * ONE / 5);
    assert_eq!(anim.current_frame, Some(3));
    anim.update_current_keyframe(ONE / 2);
    assert_eq!(anim.current_frame, Some(2));
}

#[test]
fn state_transition_redirects_mid_flight() {
    let mut t = StateTransition::builder("off".to_string())
        .property("x".to_string(), 200, Curve::linear())
        .state("off".to_string(), State::new().property("x".to_string(), Value::Number(0)))
        .state("on".to_string(), State::new().property("x".to_string(), Value::Number(100 * ONE)))
        .build();
    assert!(!t.peek_has_run_yet());
    let token = t.play("on");
    assert!(t.is_playing());
    assert!(t.peek_has_run_yet());
    assert!(t.tick(token, 100));
    assert_eq!(number(&t.get("x")), 50 * ONE);
    let token = t.play("off");
    assert_eq!(number(&t.get("x")), 50 * ONE);
    assert!(t.tick(token, 100));
    assert_eq!(number(&t.get("x")), 25 * ONE);
    assert!(!t.tick(token, 100));
    assert_eq!(number(&t.get("x")), 0);
    assert!(!t.is_playing());
}

#[test]
fn replaying_cancels_the_first_run() {
    let mut p = Playback::new();
    let first = p.start();
    let second = p.start();
    assert_ne!(first, second);
    assert_eq!(p.tick(first, 10), None);
    assert_eq!(p.tick(second, 10), Some(10));
    p.finish(first);
    assert!(p.is_playing());
    p.finish(second);
    assert!(!p.is_playing());

    let mut ctx = Context::new();
    ctx.add_tween("x".to_string(), Value::Number(0), Curve::linear(), 100);
    let mut t = Transition::new(ctx);
    let old = t.play(vec![("x".to_string(), Value::Number(100 * ONE))]);
    let new = t.play(vec![("x".to_string(), Value::Number(200 * ONE))]);
    assert!(!t.tick(old, 50));
    assert_eq!(number(&t.get("x")), 0);
    assert!(t.tick(new, 50));
    assert_eq!(number(&t.get("x")), 100 * ONE);
    assert!(!t.tick(new, 50));
    assert_eq!(number(&t.get("x")), 200 * ONE);
}

#[test]
fn value_transition_plays_only_named() {
    let mut ctx = Context::new();
    ctx.add_tween("a".to_string(), Value::Number(0), Curve::linear(), 100);
    ctx.add_tween_delayed("b".to_string(), Value::Number(0), Curve::linear(), 100, 50);
    let mut t = Transition::new(ctx);
    t.set("b".to_string().as_str(), Value::Number(ONE));
    let token = t.play(vec![("a".to_string(), Value::Number(10 * ONE))]);
    assert!(t.tick(token, 50));
    assert_eq!(number(&t.get("a")), 5 * ONE);
    assert_eq!(number(&t.get("b")), 0);
    assert!(!t.tick(token, 50));
    let token = t.play_all();
    assert!(t.tick(token, 100));
    assert_eq!(number(&t.get("b")), ONE / 2);
    t.forced_set("a", Value::Number(3 * ONE));
    assert_eq!(number(&t.get("a")), 3 * ONE);
    t.set_duration("a", 10);
    t.cancel();
    assert!(!t.tick(token, 10));
}

#[test]
fn segmented_runs_segments_in_turn() {
    let mut ctx = SegmentContext::new();
    ctx.add_tween("opacity".to_string(), Value::Number(0));
    ctx.add_tween("offset".to_string(), Value::Number(0));
    ctx.add_segment("opacity".to_string(), Value::Number(ONE), Curve::linear(), 100);
    ctx.add_segment("offset".to_string(), Value::Number(128 * ONE), Curve::linear(), 200);
    let mut a = SegmentedAnimation::new(ctx);
    let token = a.play();
    assert!(a.tick(token, 50));
    assert_eq!(number(&a.get("opacity")), ONE / 2);
    assert_eq!(number(&a.get("offset")), 0);
    assert!(a.tick(token, 150));
    assert_eq!(number(&a.get("offset")), 64 * ONE);
    assert!(!a.tick(token, 100));
    assert!(!a.is_playing());
    assert!(a.peek_has_run_yet());
}

#[test]
fn state_context_starts_at_the_initial_state() {
    let states = vec![
        ("closed".to_string(), State::new().property("w".to_string(), Value::Number(ONE))),
        ("open".to_string(), State::new().property("w".to_string(), Value::Number(9 * ONE))),
    ];
    let mut ctx = StateContext::new("closed".to_string(), states);
    ctx.add_tween("w".to_string(), Curve::linear(), 100);
    let mut t = StateTransition::from_context(ctx);
    assert_eq!(number(&t.get("w")), ONE);
    let token = t.play("open");
    assert!(t.tick(token, 25));
    assert_eq!(number(&t.get("w")), 3 * ONE);
    // An unknown state redirects nothing: the new run replays the same
    // origin and destination from its own start.
    let token = t.play("missing");
    assert!(t.tick(token, 10));
    assert_eq!(number(&t.get("w")), 18 * ONE / 10);
    t.cancel();
    assert!(!t.tick(token, 10));
}

#[test]
fn path_empty_segments_share_a_range() {
    let path = PathAnimation::new()
        .insert(Value::Number(ONE), Curve::linear(), 0)
        .insert(Value::Number(2 * ONE), Curve::linear(), 0);
    assert_eq!(path.segments.len(), 1);
    assert_eq!(path.get_duration(), 0);
    let path = path.insert(Value::Number(3 * ONE), Curve::linear(), 10);
    assert_eq!(path.segments.len(), 2);
    assert_eq!(path.find_segment(5), Some(1));
}
