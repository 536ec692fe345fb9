//! The tools that the server offers, grouped by the part of the system they
//! reach.
pub mod common;
pub mod docker;
pub mod filesystem;
pub mod git;
pub mod system;
