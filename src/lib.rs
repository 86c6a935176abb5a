//! Verified animation core: easing curves, typed interpolation, tweens and
//! the timeline engines that sequence them over elapsed milliseconds.
//!
//! All fractional quantities are fixed-point integers scaled by
//! [`fixed::ONE`]: a progress of `ONE` is the end of an animation, and a
//! numeric value of `ONE` is the number 1.
pub mod animations;
pub mod curves;
pub mod fixed;
pub mod gradient;
pub mod playback;
pub mod segmented_animation;
pub mod state_based;
pub mod trait_based;
pub mod tween;
pub mod tween_set;
pub mod value_based;
pub mod value;

pub use self::animations::keyframe::KeyFrameAnimation;
pub use self::animations::path::PathAnimation;
pub use self::curves::Curve;
pub use self::gradient::Gradient;
pub use self::trait_based::Animation;
pub use self::tween::Tween;
pub use self::value::Value;
