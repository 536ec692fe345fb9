//! A Model Context Protocol server core: JSON-RPC request handling, the tool
//! catalogue, and the scoping rules that confine file access to configured roots.
pub mod config;
pub mod json;
pub mod protocol;
pub mod text;
pub mod tools;
