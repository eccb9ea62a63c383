//! Language-aware line counting: a registry of languages and their comment
//! and string syntax, a classifier that sorts each physical line of a file
//! into code, comment or blank, an aggregator that rolls per-file results up
//! per language, and a fixed-width table formatter.
pub mod text;
pub mod language;
pub mod syntax;
pub mod classify;
pub mod stats;
pub mod report;
pub mod laws;
pub mod format;
pub mod models;
pub mod analysis;
pub mod colors;
