//! A scanner and recursive-descent parser for a small indentation-structured
//! scripting language.
//!
//! Source text is first turned into a flat token sequence by [`scanner::Scanner`]
//! (including explicit line-break and indentation-marker tokens), and that
//! sequence is then walked once, with one token of lookahead, by
//! [`parser::Parser`], which builds a list of top-level expression trees.
//! Malformed constructs produce diagnostics in a [`reporter::CodeReporter`]
//! rather than a hard stop.
//!
//! Every executable function is specified against a pure mathematical model of
//! the two stages; the model lives beside each stage.

pub mod expressions;
pub mod laws;
pub mod parse_model;
pub mod parser;
pub mod reporter;
pub mod runtime;
pub mod scanner;
pub mod scan_model;
pub mod token;
