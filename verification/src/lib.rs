//! Verified core of an AI-assisted book generator: the parsing of model output
//! into outlines, the metadata file format, token accounting, the text helpers
//! used for titles and file names, and the request rules of the HTTP service.
use vstd::prelude::*;

pub mod book;
pub mod chapter_body;
pub mod cli;
pub mod config;
pub mod cover;
pub mod error;
pub mod files;
pub mod generation;
pub mod llm;
pub mod loader;
pub mod metadata;
pub mod outline;
pub mod prompts;
pub mod render;
pub mod service;
pub mod statistics;
pub mod summary;
pub mod text;
pub mod titles;
pub mod tokens;
pub mod unicode;

verus! {
} // verus!
