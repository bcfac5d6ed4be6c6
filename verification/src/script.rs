//! Script engines: their lifecycle, the sources that scripts come from, the
//! pools and the manager that keep engines, and the registry that makes them.
pub mod cel;
pub mod engine;
pub mod error;
pub mod factory;
pub mod javascript;
pub mod json_tree;
pub mod lifecycle;
pub mod lua;
pub mod manager;
pub mod pool;
pub mod pool_autogrow;
pub mod source;
pub mod starlark;
pub mod sweep;
pub mod value;
pub mod wasm;
