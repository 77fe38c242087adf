//! A single-pass front end for a reduced Pascal-like language.
//!
//! The library accepts a stream of classified lexical symbols and decides
//! whether it forms a syntactically and semantically valid program: it
//! enforces declaration-before-use, block-structured scoping, and static
//! type compatibility across assignments, conditions, and arithmetic,
//! logical and relational expressions.  It produces an accept/reject
//! verdict with a diagnostic; it performs no code generation and keeps no
//! syntax tree.
//!
//! Tokenization is a collaborator's job: the parser consumes ready-made
//! [`token::Symbol`] values, one lookahead symbol at a time.
//!
//! The grammar and its static rules are stated independently as a
//! mathematical recognizer in [`grammar`], and the driver is verified to
//! return, stream by stream, exactly what [`grammar::analysis`] computes:
//! acceptance is owed precisely on valid programs, and each rejection
//! carries the first violation's diagnostic.

pub mod category;
pub mod error;
pub mod grammar;
pub mod parser;
pub mod samples;
pub mod table;
pub mod text;
pub mod token;
