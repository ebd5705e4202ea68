use vstd::prelude::*;

use crate::time::Timestamp;

verus! {

/// A summary of prior context.
#[derive(Debug)]
pub struct Summary {
    pub content: String,
    pub created_at: Timestamp,
}

#[verifier::ext_equal]
pub struct SummaryView {
    pub content: Seq<char>,
    pub created_at: int,
}

impl View for Summary {
    type V = SummaryView;

    open spec fn view(&self) -> SummaryView {
        SummaryView { content: self.content@, created_at: self.created_at@ }
    }
}

impl DeepView for Summary {
    type V = SummaryView;

    open spec fn deep_view(&self) -> SummaryView {
        self@
    }
}

impl Clone for Summary {
    fn clone(&self) -> (r: Self)
        ensures
            r@ == self@,
    {
        Summary { content: self.content.clone(), created_at: self.created_at }
    }
}

} // verus!
