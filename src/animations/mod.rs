//! Single-property timelines.
pub mod path;
pub mod keyframe;
