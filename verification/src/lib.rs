//! Backstitch: version control for Godot projects.
//!
//! A project's files live in Automerge documents, one for each branch, and a metadata document
//! names the branches. This library holds what Backstitch decides and computes: how settings are
//! written and read, how files are found in documents and compared, how a point in history is
//! checked out, how a project is loaded, how users sign in to servers, and how diffs are shown in
//! Godot. Reading, sending and writing is left to its callers, who hand in what they found and
//! carry out what they are told.

pub mod accessors;
pub mod auth;
pub mod branch_db;
pub mod branch_files;
pub mod clockument;
pub mod config;
pub mod connection;
pub mod content;
pub mod diff;
pub mod digest;
pub mod doc_db;
pub mod document;
pub mod escape;
pub mod extension;
pub mod fs_index;
pub mod fs_traversal;
pub mod godot_values;
pub mod history;
pub mod import_settings;
pub mod importers;
pub mod lazy_load;
pub mod lists;
pub mod ordered;
pub mod paths;
pub mod project;
pub mod project_base;
pub mod resource_loader;
pub mod root_runs;
pub mod sync;
pub mod table;
pub mod text;
pub mod toml_file;
pub mod utils;
pub mod variants;
pub mod watcher;
