//! Scored runs with the provenance that makes a score reproducible.

use vstd::prelude::*;
use vstd::string::*;

use crate::time::Timestamp;

verus! {

/// Provenance of an evaluation run.
#[derive(Debug)]
pub struct RunMetadata {
    /// The action evaluated.
    pub action: String,
    /// The dataset version the cases came from.
    pub dataset_version: String,
    /// The model the action ran against.
    pub model: String,
    /// A hash of the prompt templates the action used.
    pub prompt_hash: String,
    /// When the run happened.
    pub ran_at: Timestamp,
}

impl RunMetadata {
    /// The provenance of a run that happens now.
    pub fn new(action: &str, dataset_version: &str, model: &str, prompt_hash: &str) -> (r: Self)
        ensures
            r.action@ == action@,
            r.dataset_version@ == dataset_version@,
            r.model@ == model@,
            r.prompt_hash@ == prompt_hash@,
    {
        RunMetadata {
            action: action.to_owned(),
            dataset_version: dataset_version.to_owned(),
            model: model.to_owned(),
            prompt_hash: prompt_hash.to_owned(),
            ran_at: Timestamp::now(),
        }
    }
}

/// A scored run: provenance and the metrics of its action.
#[derive(Debug)]
pub struct Report<M> {
    pub metadata: RunMetadata,
    pub metrics: M,
}

impl<M> Report<M> {
    pub fn new(metadata: RunMetadata, metrics: M) -> (r: Self)
        ensures
            r.metadata == metadata,
            r.metrics == metrics,
    {
        Report { metadata, metrics }
    }
}

} // verus!
