//! The objects of a git repository: hashing, writing and reading blobs, trees
//! and commits; the refs and packs of a remote.
pub mod buffers;
pub mod cli;
pub mod clone;
pub mod codec;
pub mod error;
pub mod git;
pub mod hashing;
pub mod hexcode;
pub mod numtext;
pub mod object;
pub mod seqs;
pub mod sha;
pub mod text;
pub mod zlib;
