//! A small read-only Markdown viewer: the verified core.

pub mod args;
pub mod document;
pub mod paths;
pub mod size;
pub mod text;
pub mod viewer;
