//! The editor-facing half of a PHP toolchain: token lookup at a cursor, member
//! resolution, hover, definitions, semantic highlighting, code actions, rename,
//! document synchronisation, and one lint rule with its fix.
//!
//! Everything here is a function from plain values to plain values. The parser,
//! the type analyzer, and the editor connection live outside; what they produce
//! is handed in through the types of [`domain`] and [`codebase`].

pub mod ascii;
pub mod backend;
pub mod code_action;
pub mod codebase;
pub mod definition;
pub mod diagnostic;
pub mod diagnostics;
pub mod documents;
pub mod domain;
pub mod file;
pub mod hover;
pub mod indent;
pub mod laws;
pub mod lex_cache;
pub mod lookup;
pub mod member;
pub mod outside;
pub mod phpdoc;
pub mod prefer_casts_method;
pub mod rename;
pub mod reporting;
pub mod return_tag;
pub mod semantic_tokens;
pub mod seqs;
pub mod server;
pub mod text;
pub mod text_map;
pub mod token;
