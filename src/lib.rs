//! Repository, module and label resolution for a Bazel-compatible build tool.
pub mod label;
pub mod path;
pub mod module;
pub mod bzlmod;
pub mod package;
pub mod shared_error;
pub mod repo;
pub mod registry;
pub mod workspace;
