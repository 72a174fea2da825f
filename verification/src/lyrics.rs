//! The lyrics widget.
pub mod lrc;
pub mod metadata;
pub mod search;
pub mod session;
