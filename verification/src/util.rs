//! What is known of the project that components are installed into.

pub mod get_package_info;
pub mod get_package_manager;
pub mod get_project_info;
