//! A live 2D character-animation runtime: shared immutable model topology,
//! per-instance mutable model state, and the controller pipeline (motions,
//! expressions, eye blinking) that animates it.
//!
//! Every scalar is a fixed-point number counted in millionths of a unit
//! (see [`fixed`]); playback times are counted in microseconds. Results
//! therefore agree with `f32` arithmetic on the same content only up to
//! that resolution: blending, curve evaluation and the eye blink cycle are
//! exact in fixed point, rounded down once per operation, and are not
//! bit-for-bit equal to their floating-point counterparts.

pub mod fixed;
pub mod slab;
pub mod mem;
pub mod flags;
pub mod moc;
pub mod model;
pub mod records;
pub mod expression;
pub mod motion;
pub mod eye_blink;
pub mod expression_controller;
pub mod controller;
pub mod user_model;
pub mod render;
