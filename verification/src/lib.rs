//! Code generation from OpenAPI documents: what the templates of a project
//! see of a document, the filters they apply, and the configuration of
//! workspaces, flavours and runs.
pub mod commands;
pub mod config;
pub mod document;
pub mod entries;
pub mod generate;
pub mod name_map;
pub mod outline;
pub mod render;
pub mod schema;
pub mod text;
pub mod workspace;
