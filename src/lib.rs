//! Renders a directory subtree as a branch-drawn listing or as a nested
//! document, with an optional case-insensitive name filter.

pub mod cli;
pub mod entry;
pub mod error;
pub mod filters;
pub mod formatter;
pub mod json;
pub mod printer;
pub mod search;
pub mod terminal;
pub mod tracker;
pub mod text;
