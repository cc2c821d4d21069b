//! The registry's descriptors and how they are written as JSON.

pub mod registry;
pub mod registry_item;
pub mod registry_item_file;
pub mod registry_type;
