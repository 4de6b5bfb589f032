//! A statistical natural-language detector.
//!
//! The library identifies the language of a piece of text by comparing
//! character n-gram and common-word statistics of the text against
//! immutable per-language profiles.  Detection runs a fixed pipeline:
//! preprocessing (case folding, tokenization), script filtering,
//! integer scoring, and deterministic ranking.

pub mod detector;
pub mod lang;
pub mod profile;
pub mod score;
pub mod text;
