//! Parsers over byte slices.
pub mod complete;
