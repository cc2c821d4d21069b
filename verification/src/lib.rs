//! Registry resolution and placement engine for installing UI components
//! into a project: alias tables, registry descriptors, dependency
//! resolution and target paths.

pub mod commands;
pub mod config;
pub mod json;
pub mod paths;
pub mod preflights;
pub mod resolver;
pub mod schemas;
pub mod text;
pub mod util;
