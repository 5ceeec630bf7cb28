//! The two back ends: a pretty-printer that re-renders a program in the
//! source language, and the WebAssembly Text Format emitter.
pub mod gwe;
pub mod web_assembly;
