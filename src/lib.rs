//! Counting non-blank lines of text across the files that glob patterns select.

pub mod classify;
pub mod lines;
pub mod engine;
pub mod command;
pub mod report;
