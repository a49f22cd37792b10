//! Synchronous, random-access ISO Base Media File Format demuxing.
//!
//! The parser starts with a bounded box layer. Higher-level movie, track, and
//! sample-table readers build on these offsets without loading the whole file
//! or depending on a particular storage/network implementation.

pub mod audio;
pub mod boxes;
pub mod demuxer;
pub mod edit;
pub mod entry;
pub mod error;
pub mod fourcc;
pub mod fragment;
pub mod laws;
pub mod movie;
pub mod reader;
pub mod sample_table;
pub mod timeline;
pub mod track;
