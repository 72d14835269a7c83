//! Build-configuration engine: file classification, compile-option profiles,
//! source discovery and a project with an undoable command history.
pub mod commands;
pub mod lang;
pub mod profile;
pub mod project;
pub mod registry;
pub mod rustc;
pub mod sources;
