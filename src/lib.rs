//! Turns chosen exported functions of a WebAssembly module into imports,
//! renumbering every function reference on the way.
pub mod config;
pub mod errors;
pub mod functions_ids;
pub mod module;
pub mod patcher;
pub mod symbols;
