//! The appenders that the crate knows by name.

pub mod file_split;
