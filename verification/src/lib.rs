//! A verified parser for line-oriented, nested-block calendar documents
//! (`BEGIN:X` ... `END:X` blocks holding `KEY:VALUE` property lines).
//!
//! The pipeline has two stages: a tokenizer that turns the document text
//! into an ordered sequence of `(key, value)` property pairs, and a
//! recursive-descent reader that consumes that sequence according to the
//! nesting rules of `BEGIN`/`END` blocks, building a tree of typed records.

pub mod records;
pub mod tokenizer;
pub mod parser;
pub mod laws;
