//! Build configuration for a chain of native library units: which optional
//! parts are active, which files each unit compiles, where they are staged,
//! and which ABI-affecting definitions travel from a unit to those built on it.

pub mod compiler;
pub mod configure;
pub mod definitions;
pub mod flags;
pub mod format;
pub mod groups;
pub mod link;
pub mod pipeline;
pub mod propagation;
pub mod report;
pub mod staging;
pub mod text;
pub mod units;
