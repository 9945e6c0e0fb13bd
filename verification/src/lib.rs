//! Core logic of a terminal file viewer: directory listings with
//! directories-first ordering, fuzzy and exact file search, preview
//! scrolling, single-character jumps, and the modal session state machine
//! that ties them together.

pub mod browser;
pub mod cli;
pub mod config;
pub mod editor;
pub mod jump;
pub mod preview;
pub mod query;
pub mod search;
pub mod seqs;
pub mod session;
pub mod text;
