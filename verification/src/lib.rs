//! Project scaffolding from language-specific templates: the decisions of
//! the `entre` command, verified.
pub mod assets;
pub mod cli;
pub mod error;
pub mod langs;
pub mod merge;
pub mod path;
pub mod render;
pub mod sources;
pub mod templates;
pub mod text;
