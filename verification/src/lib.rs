//! Compilation of Slang shaders on demand.
//!
//! A shader is asked for by the path of its source and by a profile. The
//! source is compiled by the `slangc` compiler into a binary that lies beside
//! it, and loaded again whenever it changes.
//!
//! This crate holds what is decided on the way: which stage a profile selects
//! (`profile`), which arguments the compiler gets (`command`), where the
//! binary of a source lies (`path`), how a load of a source ends once the
//! compiler has run (`loader`), and which handles keep the sources loaded
//! (`registry`). Starting the compiler and talking to the asset server is
//! left to the caller.

pub mod command;
pub mod loader;
pub mod path;
pub mod profile;
pub mod registry;
pub mod text;

pub use loader::{SlangLoader, SlangSettings, SlangShader};
pub use registry::SlangRegistry;
