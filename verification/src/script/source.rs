//! Where scripts come from: by key, out of memory, files, trees of files, and
//! sources put together from other sources. A key that is missing is a
//! failure.
pub mod cached;
pub mod config;
pub mod file;
pub mod fs;
pub mod memory;
pub mod multiple;
pub mod transform;
