//! A cross-language benchmark harness, as decisions on plain values.
//!
//! A benchmark is a directory holding one source file per language. The library
//! finds the languages of a benchmark from its file names, builds the steps that
//! compile each language with its own toolchain, the invocations that run the
//! binaries and the one that times them all, and decides how a pass over the
//! languages goes on after each outcome. Performing those steps is left to the
//! caller.

pub mod text;
pub mod lang;
pub mod command;
pub mod error;
pub mod config;
pub mod paths;
pub mod plan;
pub mod benchmark;
pub mod suite;
