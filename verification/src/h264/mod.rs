//! H.264/AVC parsing and reconstruction.

pub mod arithmetic;
pub mod bits;
pub mod error;
pub mod laws;
pub mod macroblock;
pub mod motion;
pub mod motion_field;
pub mod nal;
pub mod parallelism;
pub mod parameter_sets;
pub mod picture;
pub mod picture_surface;
pub mod pps;
pub mod prediction;
pub mod profiling;
pub mod quantization;
pub mod raster;
pub mod rbsp;
pub mod reconstruction;
pub mod reorder;
pub mod slice;
pub mod sps;
pub mod transform;
