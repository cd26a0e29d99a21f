//! Reconciles the two descriptions a music collection gives of each track:
//! the directory position of the file (`artist/album/title.ext`) and the
//! tags embedded in it.
//!
//! Everything here is pure: paths are `/`-separated strings, tag blocks are
//! plain records, and every side effect is returned as a value for the
//! caller to carry out.

pub mod canonical;
pub mod decimal;
pub mod file_sorter;
pub mod music_file;
pub mod path;
pub mod prune;
pub mod relative;
pub mod tag_block;
pub mod tags;
pub mod text;
pub mod transcode;
