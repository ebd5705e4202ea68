//! A summariser with one answer.

use vstd::prelude::*;

use crate::models::message::{clone_messages, Message};
use crate::summarizer::SummaryRequest;

verus! {

/// Records the messages it is given and answers with a fixed text.
#[derive(Debug)]
pub struct MockSummarizer {
    pub response: String,
    pub calls: Vec<Vec<Message>>,
}

impl MockSummarizer {
    pub fn new(response: String) -> (r: Self)
        ensures
            r.response == response,
            r.calls@.len() == 0,
    {
        MockSummarizer { response, calls: Vec::new() }
    }

    /// The messages of each call, in order.
    pub fn calls(&self) -> (r: Vec<Vec<Message>>)
        ensures
            r.deep_view() == self.calls.deep_view(),
    {
        let mut r: Vec<Vec<Message>> = Vec::new();
        let mut i: usize = 0;
        while i < self.calls.len()
            invariant
                i <= self.calls@.len(),
                r@.len() == i,
                forall|k: int|
                    0 <= k < i ==> (#[trigger] r@[k]).deep_view() == self.calls@[k].deep_view(),
            decreases self.calls@.len() - i,
        {
            r.push(clone_messages(&self.calls[i]));
            i += 1;
        }
        assert(r.deep_view() =~= self.calls.deep_view());
        r
    }

    pub fn summarize(&mut self, messages: &Vec<Message>, request: &SummaryRequest) -> (r: String)
        ensures
            r@ == old(self).response@,
            final(self).response == old(self).response,
            final(self).calls.deep_view() == old(self).calls.deep_view().push(
                messages.deep_view(),
            ),
    {
        self.calls.push(clone_messages(messages));
        assert(self.calls.deep_view() =~= old(self).calls.deep_view().push(messages.deep_view()));
        self.response.clone()
    }
}

} // verus!
