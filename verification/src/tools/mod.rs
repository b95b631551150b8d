//! The tools by which agents act.
pub mod gateway;
pub mod handlers;
pub mod http_gateway;
pub mod registry;
pub mod scripts;
pub mod workspace_paths;
