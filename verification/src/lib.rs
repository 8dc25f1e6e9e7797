//! A verified parser for Braille translation-table definition files: a
//! line-oriented grammar that turns each physical line into a typed record,
//! a comment, a blank line, or a structured rule carrying decoded dot
//! patterns, modifier flags and trailing-comment text, or else a precise
//! failure position and reason.
//!
//! The grammar is stated by specification-level functions over character
//! sequences; every executable parser is proved to return exactly what the
//! stated grammar yields.

pub mod cells;
pub mod parser;
pub mod scan;
