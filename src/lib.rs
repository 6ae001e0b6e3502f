//! Locates the repositories that a debug-information file was built from and
//! maps each of them to a revision-pinned retrieval URL.

pub mod magic;
pub mod resolve;
pub mod text;
pub mod remote;
pub mod document;
