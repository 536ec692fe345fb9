//! Configuration of the server: which roots it may read and write.
pub mod path;
