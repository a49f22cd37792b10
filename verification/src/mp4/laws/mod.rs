//! What the operations of this part promise, stated over the bytes of a file.

pub mod audio;
pub mod boxes;
pub mod bytes;
pub mod demuxer;
pub mod edit;
pub mod fragment;
pub mod sample_table;
pub mod track;
