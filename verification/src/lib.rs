//! Extraction of a match summary from a flat attribute dump.
//!
//! A dump is an ordered list of name/value attributes. The library reads it
//! as a two-level hierarchy of teams and players, lays the players out as
//! table rows, renders the table as comma-separated text and decides whether
//! that text is new enough to be kept as a snapshot of its own.

pub mod attributes;
pub mod decimal;
pub mod directory;
pub mod error;
pub mod extract;
pub mod fixed;
pub mod keys;
pub mod pattern;
pub mod records;
pub mod render;
pub mod scan;
pub mod watch;
pub mod writer;
