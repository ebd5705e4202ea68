//! Detected topic shifts.

use vstd::prelude::*;

use crate::models::message::MessageId;

verus! {

/// A shift of topic, from the message it starts at.
#[derive(Debug)]
pub struct TopicShift {
    pub at_message_id: MessageId,
    pub new_topic: String,
}

#[verifier::ext_equal]
pub struct TopicShiftView {
    pub at_message_id: MessageId,
    pub new_topic: Seq<char>,
}

impl View for TopicShift {
    type V = TopicShiftView;

    open spec fn view(&self) -> TopicShiftView {
        TopicShiftView { at_message_id: self.at_message_id, new_topic: self.new_topic@ }
    }
}

impl DeepView for TopicShift {
    type V = TopicShiftView;

    open spec fn deep_view(&self) -> TopicShiftView {
        self@
    }
}

impl Clone for TopicShift {
    fn clone(&self) -> (r: Self)
        ensures
            r@ == self@,
    {
        TopicShift { at_message_id: self.at_message_id, new_topic: self.new_topic.clone() }
    }
}

} // verus!
