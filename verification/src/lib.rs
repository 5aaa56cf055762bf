//! Compositing of RGBA8 PNG layer stacks: pixel blend operators with a
//! premultiplied-alpha bracket, a composition pipeline that folds layers in a
//! fixed order, and a task-pool state machine for parallel layer loading.

pub mod algorithms;
pub mod blending;
pub mod compose;
pub mod buffer;
pub mod codec;
pub mod errors;
pub mod parallelism;
pub mod utils;
