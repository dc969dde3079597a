//! Document chunking and retrieval helpers: separator-aware text splitting,
//! diff splitting by whole file patches, prompt assembly and the SQL text of a
//! vector store, each with a verified contract.

pub mod text;
pub mod error;
pub mod document;
pub mod splitter;
pub mod diff;
pub mod markdown;
pub mod prompt;
pub mod document_path;
pub mod store;
pub mod loaders;
pub mod models;
pub mod memory;
