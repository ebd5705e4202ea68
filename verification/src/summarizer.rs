//! What a summary is asked for.

use vstd::prelude::*;

verus! {

/// What kind of summary the orchestrator is asking for. The summariser maps
/// it to its own prompts.
#[derive(Debug)]
pub enum SummaryRequest {
    /// Summarise the prior topic because the conversation has moved on.
    TopicShift { new_topic: String },
    /// Summarise to compact a conversation approaching the context limit.
    Compaction,
}

#[verifier::ext_equal]
pub enum SummaryRequestView {
    TopicShift { new_topic: Seq<char> },
    Compaction,
}

impl View for SummaryRequest {
    type V = SummaryRequestView;

    open spec fn view(&self) -> SummaryRequestView {
        match *self {
            SummaryRequest::TopicShift { new_topic } => SummaryRequestView::TopicShift {
                new_topic: new_topic@,
            },
            SummaryRequest::Compaction => SummaryRequestView::Compaction,
        }
    }
}

impl DeepView for SummaryRequest {
    type V = SummaryRequestView;

    open spec fn deep_view(&self) -> SummaryRequestView {
        self@
    }
}

impl Clone for SummaryRequest {
    fn clone(&self) -> (r: Self)
        ensures
            r@ == self@,
    {
        match self {
            SummaryRequest::TopicShift { new_topic } => SummaryRequest::TopicShift {
                new_topic: new_topic.clone(),
            },
            SummaryRequest::Compaction => SummaryRequest::Compaction,
        }
    }
}

impl SummaryRequest {
    /// A short, stable identifier for logging.
    pub fn label(&self) -> (r: &'static str)
        ensures
            r@ == match self@ {
                SummaryRequestView::TopicShift { .. } => "topic_shift"@,
                SummaryRequestView::Compaction => "compaction"@,
            },
    {
        match self {
            SummaryRequest::TopicShift { .. } => "topic_shift",
            SummaryRequest::Compaction => "compaction",
        }
    }
}

} // verus!
