//! Verified building blocks of a media pipeline: H.264 syntax and
//! reconstruction, MP4 demuxing, and cached range input.

pub mod h264;
pub mod input;
pub mod media;
pub mod mp4;
pub mod network;
mod shared;
pub mod text;
