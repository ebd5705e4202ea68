//! The core of a conversational agent: conversations that branch on topic
//! shifts, memory recall, tool calls with confirmation threads, and the
//! adapters' request building and response reading.

pub mod cli;
pub mod cli_laws;
pub mod conversation_store;
pub mod conversation_store_laws;
pub mod evals;
pub mod exa;
pub mod failure;
pub mod identity;
pub mod json;
pub mod language_model;
pub mod memory_index;
pub mod mistral;
pub mod models;
pub mod operation_laws;
pub mod orchestrator;
pub mod order;
pub mod prompt_laws;
pub mod prompts;
pub mod prompts_embedded;
pub mod summarizer;
pub mod surreal;
pub mod template_tags;
pub mod testing;
pub mod text;
pub mod text_laws;
pub mod time;
pub mod tool;
pub mod tool_index;
pub mod tool_laws;
pub mod tool_search;
pub mod topic_detector;
