//! Verified core of a command-line project-management assistant.
//!
//! The crate models a JSON-persisted backlog of work items, resolves layered
//! LLM-endpoint configuration, interprets semi-structured LLM responses into
//! typed suggestions, and computes the idempotent document and manifest
//! updates that those suggestions call for.  Networking and file I/O live
//! outside the library; everything here is pure computation with contracts.

pub mod cargo_deps;
pub mod clock;
pub mod codegen;
pub mod config;
pub mod docs;
pub mod json;
pub mod llm;
pub mod ollama;
pub mod prompts;
pub mod sprint;
pub mod tasks;
pub mod templates;
pub mod text;
pub mod text_utils;
pub mod updater;
