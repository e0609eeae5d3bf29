//! The bits of a drawable's constant and dynamic flags.

use vstd::prelude::*;

verus! {

/// Constant flag: the drawable is blended additively.
pub const BLEND_ADDITIVE: u8 = 1;
/// Constant flag: the drawable is blended multiplicatively.
pub const BLEND_MULTIPLICATIVE: u8 = 2;
/// Constant flag: the drawable is double sided and is not culled.
pub const IS_DOUBLE_SIDED: u8 = 4;
/// Constant flag: the drawable's clipping mask is inverted.
pub const IS_INVERTED_MASK: u8 = 8;

/// Dynamic flag: the drawable is visible.
pub const IS_VISIBLE: u8 = 1;
/// Dynamic flag: the visibility changed in the last update.
pub const VISIBILITY_CHANGED: u8 = 2;
/// Dynamic flag: the opacity changed in the last update.
pub const OPACITY_CHANGED: u8 = 4;
/// Dynamic flag: the draw order changed in the last update.
pub const DRAW_ORDER_CHANGED: u8 = 8;
/// Dynamic flag: the render order changed in the last update.
pub const RENDER_ORDER_CHANGED: u8 = 16;
/// Dynamic flag: the vertex positions changed in the last update.
pub const VERTEX_POSITIONS_CHANGED: u8 = 32;

} // verus!
