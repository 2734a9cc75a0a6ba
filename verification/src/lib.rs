//! Data model of a buildpack: layers, their environment files, launch
//! descriptors and build plans, kept free of any file-system access.
//!
//! The library computes what a buildpack has to read and write, and leaves
//! the reading and writing to its caller.

pub mod assoc;
pub mod build_phase;
pub mod build_plan;
pub mod buildpack;
pub mod detect;
pub mod dict;
pub mod document;
pub mod env;
pub mod error;
pub mod layers;
pub mod metadata;
pub mod nesting;
pub mod platform;
pub mod stack;
pub mod text;

pub use build_phase::Build;
pub use detect::Detect;
