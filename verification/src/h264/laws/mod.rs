//! What the operations of this part promise, stated over their inputs and results.

pub mod bits;
pub mod macroblock;
pub mod macroblock_parts;
pub mod motion;
pub mod motion_field;
pub mod picture;
pub mod picture_set;
pub mod picture_surface;
pub mod prediction;
pub mod profiling;
pub mod reconstruction;
pub mod scaling;
pub mod sequence;
pub mod slice;
pub mod stream;
pub mod transform;
pub mod units;
