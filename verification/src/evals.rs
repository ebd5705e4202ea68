//! Offline evaluation of the model-backed decisions: versioned datasets, pure
//! scorers, and metrics with their provenance.

pub mod dataset;
pub mod drift;
pub mod laws;
pub mod report;
pub mod tool_search;
