//! A topic detector with at most one shift.

use vstd::prelude::*;

use crate::models::message::{clone_messages, Message};
use crate::topic_detector::TopicShift;

verus! {

/// Records the messages it is given. The first call answers with the seeded
/// shift, later ones with none.
#[derive(Debug)]
pub struct MockTopicDetector {
    pub shift: Option<TopicShift>,
    pub calls: Vec<Vec<Message>>,
}

impl MockTopicDetector {
    pub fn no_shift() -> (r: Self)
        ensures
            r.shift is None,
            r.calls@.len() == 0,
    {
        MockTopicDetector { shift: None, calls: Vec::new() }
    }

    pub fn with_shift(shift: TopicShift) -> (r: Self)
        ensures
            r.shift == Some(shift),
            r.calls@.len() == 0,
    {
        MockTopicDetector { shift: Some(shift), calls: Vec::new() }
    }

    /// The messages of each call, in order.
    pub fn calls(&self) -> (r: Vec<Vec<Message>>)
        ensures
            r.deep_view() == self.calls.deep_view(),
    {
        let mut r: Vec<Vec<Message>> = Vec::new();
        let mut i: usize = 0;
        while i < self.calls.len()
            invariant
                i <= self.calls@.len(),
                r@.len() == i,
                forall|k: int|
                    0 <= k < i ==> (#[trigger] r@[k]).deep_view() == self.calls@[k].deep_view(),
            decreases self.calls@.len() - i,
        {
            r.push(clone_messages(&self.calls[i]));
            i += 1;
        }
        assert(r.deep_view() =~= self.calls.deep_view());
        r
    }

    pub fn detect_shift(&mut self, messages: &Vec<Message>) -> (r: Option<TopicShift>)
        ensures
            r == old(self).shift,
            final(self).shift is None,
            final(self).calls.deep_view() == old(self).calls.deep_view().push(
                messages.deep_view(),
            ),
    {
        self.calls.push(clone_messages(messages));
        assert(self.calls.deep_view() =~= old(self).calls.deep_view().push(messages.deep_view()));
        self.shift.take()
    }
}

} // verus!
