//! A small compiler for a minimal statically typed scripting language:
//! a tokenizer, a recursive expression parser with type resolution, a
//! pretty-printer that re-renders the syntax tree in the source language,
//! and a WebAssembly Text Format emitter.
pub mod blocks;
pub mod expressions;
pub mod generators;
pub mod parser;
pub mod text;
pub mod tokenizer;
