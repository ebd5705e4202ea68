//! In-memory and scripted stand-ins for the services around the orchestrator.

pub mod conversation_store;
pub mod embedder;
pub mod language_model;
pub mod laws;
pub mod memory_index;
pub mod prompt_registry;
pub mod summarizer;
pub mod tool_index;
pub mod tool_registry;
pub mod topic_detector;
