//! A post-compilation patcher for WebAssembly modules: selected exported
//! functions are turned into imports, and every call site and export record
//! is renumbered so the function index space stays consistent.

pub mod module;
pub mod plan;
pub mod rewire;
pub mod laws;
