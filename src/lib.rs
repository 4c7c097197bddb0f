//! Incremental, single-character-lookahead reading of text with line and
//! column tracking, and a longest-match scanner built on top of it.
pub mod charpos;
pub mod text;
pub mod parseable;
pub mod stream;
pub mod transfer;
pub mod origin;
pub mod object_storage;
pub mod location;
