//! Verified export pipeline for resource-pack projects.
//!
//! The library resolves a declared platform version to a numeric pack
//! format code, selects the files of a project tree under an ignore-pattern
//! filter, remaps the selected paths into archive-relative paths, and
//! builds the distributable zip archive together with its synthesized
//! `pack.mcmeta` metadata entry.

pub mod archive;
pub mod error;
pub mod grammar;
pub mod mapper;
pub mod meta;
pub mod models;
pub mod pipeline;
pub mod selector;
pub mod strutil;
pub mod version;
