//! Objective-C for Rust: the configuration that bindings are made from, and what can be asked
//! of the runtime.

pub mod bytes;
pub mod config;
pub mod name_map;
pub mod runtime;
pub mod text;
