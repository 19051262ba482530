//! Build-orchestration library for a native geometry-import dependency.
//!
//! The crate models the pipeline that acquires a compiled copy of the
//! native library: parsing the compilation target triple, choosing an
//! acquisition strategy, planning the external build-tool invocations,
//! fetching and caching prebuilt archives, packing and unpacking those
//! archives, and emitting linker directives for the consuming build.

pub mod archive;
pub mod error;
pub mod fetch;
pub mod libname;
pub mod manifest;
pub mod orchestrator;
pub mod strutil;
pub mod target;
