//! Rewrites backslash path separators as forward slashes inside text files,
//! such as playlists: choosing the files (directory listing and extension
//! filter) and the byte rewrite itself.
pub mod candidates;
pub mod path;
pub mod rewrite;
pub mod selection;
