//! Build-and-resolve core of a live code reload system: target platforms,
//! build settings, the build driver's decisions, the dynamic-library
//! dependency resolver, content hashing and the builder task's command loop.
pub mod text;
pub mod paths;
pub mod target;
pub mod settings;
pub mod task;
pub mod driver;
pub mod resolver;
pub mod records;
