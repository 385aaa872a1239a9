//! Maintain several independently built versions of the LLVM/Clang toolchain
//! side by side: a catalog of build descriptors ("entries"), a
//! directory-scoped active-build resolver, and a deterministic translation of
//! abstract build options into an external builder invocation.

pub mod config;
pub mod entry;
pub mod error;
pub mod generator;
pub mod registry;
pub mod text;
pub mod version;
