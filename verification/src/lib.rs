//! Core of a source-to-source compiler that lowers a small, statically typed
//! scripting language into POSIX-shell text.
//!
//! Every language construct is a self-describing node with two capabilities:
//! it parses (and type-checks) itself out of a token stream under a
//! `ParserMetadata`, and it later renders itself into shell text under a
//! `TranslateMetadata`.  Parsing builds an immutable tree in a single
//! top-down pass; translation is a second, fully separate pass that never
//! consults the token stream or the scope memory.

pub mod types;
pub mod diagnostics;
pub mod memory;
pub mod parser;
pub mod emitter;
pub mod compute;
pub mod variable;
pub mod expression;
pub mod statement;
pub mod block;
