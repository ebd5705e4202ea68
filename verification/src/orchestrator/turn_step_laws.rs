//! What each step of a turn does with what it was handed: what is read, shown
//! to the topic detector, summarised, written and given to the model.

use vstd::prelude::*;

use crate::language_model::PromptView;
use crate::models::conversation::ConversationView;
use crate::models::message::{Content, Message, MessageView, Role};
use crate::orchestrator::decision_laws::{
    law_prompt_holds_the_context, law_shift_at_incoming_message_splits_behind_all,
    law_shift_at_owned_message_splits_before_it,
};
use crate::orchestrator::decisions::{owned_of, recalled_of, time_is_due};
use crate::orchestrator::turn::{
    reads_on, turn_step, Brain, ContextGoal, OwnedGoal, Reading, Reply, Request, Stage, Stamp, Turn,
};
use crate::summarizer::SummaryRequest;

verus! {

/// Whether messages are the first ones of a list, in order.
pub open spec fn first_of(part: Seq<Message>, all: Seq<Message>, n: int) -> bool {
    &&& part.len() == n
    &&& n <= all.len()
    &&& forall|i: int| 0 <= i < n ==> (#[trigger] part[i])@ == all[i]@
}

proof fn lemma_first_of(part: Vec<Message>, all: Vec<Message>, n: int)
    requires
        0 <= n <= all@.len(),
        part.deep_view() == all.deep_view().take(n),
    ensures
        first_of(part@, all@, n),
{
    assert(part.deep_view().len() == part@.len());
    assert forall|i: int| 0 <= i < n implies (#[trigger] part@[i])@ == all@[i]@ by {
        assert(part.deep_view()[i] == part@[i]@);
        assert(all.deep_view().take(n)[i] == all@[i]@);
    }
}

/// Whether a turn closes a conversation because its topic has changed: the
/// first `split` of its messages are summarised as the prior topic, and what
/// is most similar to the new topic is looked for, other than the conversation
/// itself.
pub open spec fn leaves_topic(
    before: Turn,
    after: Turn,
    request: Request,
    owned: Seq<Message>,
    split: int,
    topic: Seq<char>,
) -> bool {
    &&& request matches Request::SummarizeAndSearch { messages, request: asked, topic: t, k, exclude }
        && first_of(messages@, owned, split) && t@ == topic && k == 1 && exclude
        == before.conversation && (asked matches SummaryRequest::TopicShift { new_topic }
        && new_topic@ == topic)
    &&& after.stage matches Stage::Summarizing { owned: o, split: s, request: r } && s == split
        && first_of(o@, owned, owned.len() as int) && (r matches SummaryRequest::TopicShift {
        new_topic,
    } && new_topic@ == topic)
    &&& after.conversation == before.conversation
}

/// A shift that starts at the incoming message closes the conversation with
/// all of its own messages as the prior topic.
pub proof fn law_shift_at_incoming_message_closes_the_topic(
    brain: Brain,
    before: Turn,
    reply: Reply,
    stamp: Stamp,
    after: Turn,
    request: Request,
    owned: Vec<Message>,
)
    requires
        turn_step(brain, before, reply, stamp, after, request),
        before.stage == Stage::Detecting(owned),
        reply matches Reply::Shift(Ok(Some(shift))) && forall|i: int|
            0 <= i < owned@.len() ==> (#[trigger] owned@[i]).id != shift.at_message_id,
        owned@.len() > 0,
    ensures
        reply matches Reply::Shift(Ok(Some(shift))) && leaves_topic(
            before,
            after,
            request,
            owned@,
            owned@.len() as int,
            shift.new_topic@,
        ),
{
    if let Reply::Shift(Ok(Some(shift))) = reply {
        let views = owned.deep_view();
        assert forall|i: int| 0 <= i < views.len() implies (#[trigger] views[i]).id
            != shift.at_message_id by {
            assert(views[i] == owned@[i]@);
        }
        law_shift_at_incoming_message_splits_behind_all(views, shift@);
        lemma_closed(before, after, request, owned, owned@.len() as int);
    }
}

/// A shift that starts at an own message behind the first closes the
/// conversation with the messages before it as the prior topic.
pub proof fn law_shift_at_own_message_closes_the_topic(
    brain: Brain,
    before: Turn,
    reply: Reply,
    stamp: Stamp,
    after: Turn,
    request: Request,
    owned: Vec<Message>,
    at: int,
)
    requires
        turn_step(brain, before, reply, stamp, after, request),
        before.stage == Stage::Detecting(owned),
        0 < at < owned@.len(),
        reply matches Reply::Shift(Ok(Some(shift))) && owned@[at].id == shift.at_message_id
            && forall|i: int| 0 <= i < at ==> (#[trigger] owned@[i]).id != shift.at_message_id,
    ensures
        reply matches Reply::Shift(Ok(Some(shift))) && leaves_topic(
            before,
            after,
            request,
            owned@,
            at,
            shift.new_topic@,
        ),
{
    if let Reply::Shift(Ok(Some(shift))) = reply {
        let views = owned.deep_view();
        assert(views[at] == owned@[at]@);
        assert forall|i: int| 0 <= i < at implies (#[trigger] views[i]).id
            != shift.at_message_id by {
            assert(views[i] == owned@[i]@);
        }
        law_shift_at_owned_message_splits_before_it(views, shift@, at);
        lemma_closed(before, after, request, owned, at);
    }
}

proof fn lemma_closed(before: Turn, after: Turn, request: Request, owned: Vec<Message>, n: int)
    requires
        0 <= n <= owned@.len(),
    ensures
        request matches Request::SummarizeAndSearch { messages, .. } ==> (messages.deep_view()
            == owned.deep_view().take(n) ==> first_of(messages@, owned@, n)),
        request matches Request::Summarize { messages, .. } ==> (messages.deep_view()
            == owned.deep_view().take(n) ==> first_of(messages@, owned@, n)),
        after.stage matches Stage::Summarizing { owned: o, .. } ==> (o.deep_view()
            == owned.deep_view() ==> first_of(o@, owned@, owned@.len() as int)),
{
    match request {
        Request::SummarizeAndSearch { messages, .. } => {
            if messages.deep_view() == owned.deep_view().take(n) {
                lemma_first_of(messages, owned, n);
            }
        },
        Request::Summarize { messages, .. } => {
            if messages.deep_view() == owned.deep_view().take(n) {
                lemma_first_of(messages, owned, n);
            }
        },
        _ => {},
    }
    match after.stage {
        Stage::Summarizing { owned: o, .. } => {
            if o.deep_view() == owned.deep_view() {
                assert(owned.deep_view().take(owned@.len() as int) =~= owned.deep_view());
                lemma_first_of(o, owned, owned@.len() as int);
            }
        },
        _ => {},
    }
}

/// The topic detector is shown the conversation's own messages and, behind
/// them, the message that has come in. Where it detects nothing, or the shift
/// starts at the very first message, the conversation goes on.
pub proof fn law_detector_is_shown_the_conversation(
    brain: Brain,
    before: Turn,
    reply: Reply,
    stamp: Stamp,
    after: Turn,
    request: Request,
)
    requires
        turn_step(brain, before, reply, stamp, after, request),
    ensures
        match (before.stage, reply) {
            (Stage::OwnedList(OwnedGoal::Drift, conversation), Reply::Messages(Ok(messages))) => {
                let owned = owned_of(conversation.items@, messages.deep_view());
                &&& request matches Request::DetectShift(probe) && probe@.len() == owned.len() + 1
                    && probe@.last()@ == before.user@ && forall|i: int|
                    0 <= i < owned.len() ==> (#[trigger] probe@[i])@ == owned[i]
                &&& after.stage matches Stage::Detecting(o) && o.deep_view() == owned
            },
            (Stage::Detecting(owned), Reply::Shift(Ok(shift))) => (match shift {
                Some(shift) => owned@.len() == 0 || owned@[0].id == shift.at_message_id,
                None => true,
            }) ==> {
                &&& request matches Request::Get(id) && id == before.conversation
                &&& after.stage matches Stage::ContextGet(ContextGoal::Overflow(o))
                    && o.deep_view() == owned.deep_view()
            },
            _ => true,
        },
{
    match (before.stage, reply) {
        (Stage::OwnedList(OwnedGoal::Drift, conversation), Reply::Messages(Ok(messages))) => {
            let owned = owned_of(conversation.items@, messages.deep_view());
            if let Request::DetectShift(probe) = request {
                let seen = probe.deep_view();
                assert(seen.len() == probe@.len());
                assert(seen[probe@.len() - 1] == probe@.last()@);
                assert(seen[owned.len() as int] == before.user@);
                assert forall|i: int| 0 <= i < owned.len() implies (#[trigger] probe@[i])@
                    == owned[i] by {
                    assert(seen[i] == probe@[i]@);
                }
            }
        },
        (Stage::Detecting(owned), Reply::Shift(Ok(Some(shift)))) => {
            if owned@.len() > 0 {
                assert(owned.deep_view()[0] == owned@[0]@);
            }
        },
        _ => {},
    }
}

/// A conversation is compacted exactly if the prompt leaves less than the
/// threshold: then all of its own messages are summarised; else it goes on.
pub proof fn law_compaction_summarises_everything(
    brain: Brain,
    before: Turn,
    remaining: usize,
    stamp: Stamp,
    after: Turn,
    request: Request,
)
    requires
        before.stage is Measuring,
        turn_step(brain, before, Reply::Capacity(remaining), stamp, after, request),
    ensures
        before.stage matches Stage::Measuring(owned) && if remaining < brain.compaction_threshold {
            &&& request matches Request::Summarize { messages, request: asked } && first_of(
                messages@,
                owned@,
                owned@.len() as int,
            ) && asked is Compaction
            &&& after.stage matches Stage::Summarizing { owned: o, split, request: r } && split
                == owned@.len() && first_of(o@, owned@, owned@.len() as int) && r is Compaction
        } else {
            &&& request matches Request::Get(id) && id == before.conversation
            &&& after.stage == Stage::OwnedGet(OwnedGoal::Time)
        },
{
    if let Stage::Measuring(owned) = before.stage {
        lemma_closed(before, after, request, owned, owned@.len() as int);
    }
}

/// Closing a conversation, once its summary is there: a child is created under
/// it, gets the summary and the carried messages, becomes current, is indexed
/// by the summary, and is linked to the conversation that is recalled, if any.
/// From its creation on the turn is about the child.
pub proof fn law_split_moves_the_turn_into_the_child(
    brain: Brain,
    before: Turn,
    reply: Reply,
    stamp: Stamp,
    after: Turn,
    request: Request,
)
    requires
        turn_step(brain, before, reply, stamp, after, request),
    ensures
        match (before.stage, reply) {
            (Stage::Summarizing { .. }, Reply::Summary(Ok(content))) => {
                &&& request matches Request::Create(parent) && parent == before.conversation
                &&& after.stage matches Stage::Creating(s) && s.content@ == content@ && s.candidate
                    is None
            },
            (
                Stage::Summarizing { .. },
                Reply::SummaryAndSearch { summary: Ok(content), related },
            ) => {
                &&& request matches Request::Create(parent) && parent == before.conversation
                &&& after.stage matches Stage::Creating(s) && s.content@ == content@ && (
                match related {
                    Ok(results) => if results@.len() > 0 && results@[0].score
                        >= brain.recall_threshold {
                        s.candidate == Some(results@[0])
                    } else {
                        s.candidate is None
                    },
                    Err(_) => s.candidate is None,
                })
            },
            (Stage::Creating(split), Reply::Created(Ok(child))) => {
                &&& after.conversation == child.id
                &&& request matches Request::UpdateSummary { conversation, summary } && conversation
                    == child.id && summary.content@ == split.content@ && summary.created_at@
                    == stamp.now@
                &&& after.stage matches Stage::Summing(s) && s.content@ == split.content@
                    && s.referenced@ == split.referenced@ && s.candidate == split.candidate
            },
            (Stage::Summing(split), Reply::Done(Ok(_))) => {
                &&& request matches Request::Reference { conversation, shared } && conversation
                    == before.conversation && shared@ == split.referenced@
                &&& after.stage matches Stage::Referencing(s) && s.content@ == split.content@
                    && s.candidate == split.candidate
            },
            (Stage::Referencing(split), Reply::Done(Ok(_))) => {
                &&& request matches Request::SetCurrent(id) && id == before.conversation
                &&& after.stage matches Stage::Switching(s) && s.content@ == split.content@
                    && s.candidate == split.candidate
            },
            (Stage::Switching(split), Reply::Done(Ok(_))) => {
                &&& request matches Request::IndexSummary { conversation, text } && conversation
                    == before.conversation && text@ == split.content@
                &&& after.stage matches Stage::Indexing(s) && s.candidate == split.candidate
            },
            (Stage::Indexing(split), Reply::Done(_)) => match split.candidate {
                Some(candidate) => request matches Request::RecordRecall { from, to, score } && from
                    == before.conversation && to == candidate.id && score == candidate.score,
                None => request matches Request::Get(id) && id == before.conversation,
            },
            (Stage::Linking, Reply::Done(_)) => request matches Request::Get(id) && id
                == before.conversation,
            _ => true,
        },
{
}

/// The messages that a compaction shares with the child: both of the last two
/// if the first of them is the user's, the last alone if only that one is, and
/// none else. A topic shift shares none.
pub proof fn law_child_shares_the_last_exchange(
    brain: Brain,
    before: Turn,
    reply: Reply,
    stamp: Stamp,
    after: Turn,
    request: Request,
    owned: Vec<Message>,
)
    requires
        turn_step(brain, before, reply, stamp, after, request),
        before.stage matches Stage::Summarizing { owned: o, split, .. } && o == owned && split
            == owned@.len(),
        after.stage is Creating,
    ensures
        before.stage matches Stage::Summarizing { request: reason, .. } && after.stage
            matches Stage::Creating(s) && (match reason {
            SummaryRequest::TopicShift { .. } => s.referenced@.len() == 0,
            SummaryRequest::Compaction => {
                let n = owned@.len() as int;
                if n >= 2 && owned@[n - 2].role == Role::User {
                    s.referenced@ == seq![owned@[n - 2].id, owned@[n - 1].id]
                } else if n >= 1 && owned@[n - 1].role == Role::User {
                    s.referenced@ == seq![owned@[n - 1].id]
                } else {
                    s.referenced@.len() == 0
                }
            },
        }),
{
    let views = owned.deep_view();
    let n = owned@.len() as int;
    assert(views.len() == n);
    if n >= 1 {
        assert(views[n - 1] == owned@[n - 1]@);
    }
    if n >= 2 {
        assert(views[n - 2] == owned@[n - 2]@);
    }
    crate::orchestrator::decision_laws::law_compaction_carries_the_last_exchange(views);
}

/// The user's message is recorded in the conversation that the turn is about,
/// as it came, behind a note of the time where one is due.
pub proof fn law_user_message_is_recorded_as_it_came(
    brain: Brain,
    before: Turn,
    reply: Reply,
    stamp: Stamp,
    after: Turn,
    request: Request,
)
    requires
        turn_step(brain, before, reply, stamp, after, request),
    ensures
        match (before.stage, reply) {
            (Stage::OwnedList(OwnedGoal::Time, conversation), Reply::Messages(Ok(messages))) => {
                let owned = owned_of(conversation.items@, messages.deep_view());
                request matches Request::Append { conversation: to, message } && to
                    == before.conversation && if time_is_due(owned, stamp.now@) {
                    &&& message.id == stamp.first
                    &&& message.role == Role::User
                    &&& message.timestamp@ == stamp.now@
                    &&& message.content@.len() == 1
                    &&& message.content@[0] matches Content::TemporalUpdate { timestamp }
                        && timestamp@ == crate::time::instant_text(stamp.now@)
                    &&& after.stage is AppendingTime
                } else {
                    message@ == before.user@ && after.stage is AppendingUser
                }
            },
            (Stage::AppendingTime, Reply::Done(Ok(_))) => {
                &&& request matches Request::Append { conversation: to, message } && to
                    == before.conversation && message@ == before.user@
                &&& after.stage is AppendingUser
            },
            (Stage::AppendingUser, Reply::Done(Ok(_))) => {
                &&& request matches Request::Get(id) && id == before.conversation
                &&& after.stage matches Stage::ContextGet(ContextGoal::Generation)
            },
            _ => true,
        },
        after.user@ == before.user@,
        !(before.stage is Creating) ==> after.conversation == before.conversation,
{
    match request {
        Request::Append { message, .. } => {
            assert(message@.content.len() == message.content@.len());
            if message.content@.len() > 0 {
                assert(message@.content[0] == message.content@[0]@);
            }
        },
        _ => {},
    }
}

/// A conversation that is not found and every failure of a read or a write
/// that the turn waits for ends the turn, with the failure it was handed.
pub proof fn law_failures_end_the_turn(
    brain: Brain,
    before: Turn,
    reply: Reply,
    stamp: Stamp,
    after: Turn,
    request: Request,
)
    requires
        turn_step(brain, before, reply, stamp, after, request),
    ensures
        match (before.stage, reply) {
            (Stage::OwnedGet(_), Reply::Conversation(Ok(None))) => request matches Request::Fail(f)
                && f.message@ == "conversation not found"@,
            (Stage::ContextGet(_), Reply::Conversation(Ok(None))) => request
                matches Request::Fail(f) && f.message@ == "conversation not found"@,
            (_, Reply::Conversation(Err(e))) => request matches Request::Fail(f) && f.message@
                == e.message@,
            (_, Reply::Messages(Err(e))) => request matches Request::Fail(f) && f.message@
                == e.message@,
            (_, Reply::Shift(Err(e))) => request matches Request::Fail(f) && f.message@
                == e.message@,
            (_, Reply::Recalled(Err(e))) => request matches Request::Fail(f) && f.message@
                == e.message@,
            (_, Reply::Summary(Err(e))) => request matches Request::Fail(f) && f.message@
                == e.message@,
            (_, Reply::SummaryAndSearch { summary: Err(e), .. }) => request
                matches Request::Fail(f) && f.message@ == e.message@,
            (_, Reply::Created(Err(e))) => request matches Request::Fail(f) && f.message@
                == e.message@,
            (Stage::Indexing(_), Reply::Done(_)) => !(request is Fail),
            (Stage::Linking, Reply::Done(_)) => !(request is Fail),
            (_, Reply::Done(Err(e))) => request matches Request::Fail(f) && f.message@
                == e.message@,
            _ => true,
        },
{
}

// ---------------------------------------------------------------------------
// The prompt
// ---------------------------------------------------------------------------

/// Whether a prompt holds the text of a summary, the given recalled summaries,
/// and messages in order, each with its role and all its content.
pub open spec fn holds(
    prompt: PromptView,
    conversation: ConversationView,
    recalled: Seq<Seq<char>>,
    messages: Seq<MessageView>,
) -> bool {
    &&& prompt.summary == match conversation.summary {
        Some(summary) => Some(summary.content),
        None => None,
    }
    &&& prompt.recalled == recalled
    &&& prompt.messages.len() == messages.len()
    &&& forall|i: int|
        0 <= i < messages.len() ==> (#[trigger] prompt.messages[i]).role == messages[i].role
            && prompt.messages[i].content == messages[i].content
}

/// Whether what was read of a context is put to its use: the model is asked
/// for an answer from it, or it is measured with the user's message behind it.
pub open spec fn used(
    before: Turn,
    request: Request,
    goal: ContextGoal,
    conversation: ConversationView,
    recalled: Seq<Seq<char>>,
    messages: Seq<MessageView>,
) -> bool {
    match goal {
        ContextGoal::Generation => request matches Request::Generate { conversation: id, prompt }
            && id == before.conversation && holds(prompt@, conversation, recalled, messages),
        ContextGoal::Overflow(_) => request matches Request::RemainingCapacity(prompt) && holds(
            prompt@,
            conversation,
            recalled,
            messages.push(before.user@),
        ),
    }
}

proof fn lemma_used(before: Turn, after: Turn, request: Request, reading: Reading)
    requires
        reads_on(after, request, reading),
        after.user@ == before.user@,
        after.conversation == before.conversation,
        reading.sources@.len() >= reading.ids@.len(),
    ensures
        used(
            before,
            request,
            reading.goal,
            reading.conversation@,
            recalled_of(reading.sources.deep_view()),
            reading.messages.deep_view(),
        ),
{
    let context = crate::orchestrator::turn::context_read(reading);
    law_prompt_holds_the_context(context);
}

/// The context of an answer: the conversation's summary, the summaries of all
/// conversations that it recalls, each of which is read in turn, and all of
/// its messages. The same context with the user's message behind it is
/// measured before.
pub proof fn law_prompt_is_made_of_what_was_read(
    brain: Brain,
    before: Turn,
    reply: Reply,
    stamp: Stamp,
    after: Turn,
    request: Request,
)
    requires
        turn_step(brain, before, reply, stamp, after, request),
    ensures
        match (before.stage, reply) {
            (Stage::OwnedGet(goal), Reply::Conversation(Ok(Some(conversation)))) => {
                &&& request matches Request::List(id) && id == before.conversation
                &&& after.stage matches Stage::OwnedList(g, c) && g == goal && c@ == conversation@
            },
            (Stage::ContextGet(_), Reply::Conversation(Ok(Some(conversation)))) => {
                &&& request matches Request::List(id) && id == before.conversation
                &&& after.stage matches Stage::ContextList(_, c) && c@ == conversation@
            },
            (Stage::ContextList(_, conversation), Reply::Messages(Ok(messages))) => {
                &&& request matches Request::Recalled(id) && id == before.conversation
                &&& after.stage matches Stage::ContextRecalled(_, c, m) && c@ == conversation@
                    && m.deep_view() == messages.deep_view()
            },
            (
                Stage::ContextRecalled(goal, conversation, messages),
                Reply::Recalled(Ok(ids)),
            ) => if ids@.len() == 0 {
                used(before, request, goal, conversation@, Seq::empty(), messages.deep_view())
            } else {
                request matches Request::Get(id) && id == ids@[0]
            },
            (Stage::ContextSource(reading), Reply::Conversation(Ok(source))) => {
                let read = reading.sources.deep_view().push(source.deep_view());
                if read.len() < reading.ids@.len() {
                    request matches Request::Get(id) && id == reading.ids@[read.len() as int]
                } else {
                    used(
                        before,
                        request,
                        reading.goal,
                        reading.conversation@,
                        recalled_of(read),
                        reading.messages.deep_view(),
                    )
                }
            },
            _ => true,
        },
{
    match (before.stage, reply) {
        (Stage::ContextRecalled(goal, conversation, messages), Reply::Recalled(Ok(ids))) => {
            let reading = choose|reading: Reading| #[trigger]
                reads_on(after, request, reading) && crate::orchestrator::turn::same_goal(
                    reading.goal,
                    goal,
                ) && reading.conversation@ == conversation@ && reading.messages.deep_view()
                    == messages.deep_view() && reading.ids@ == ids@ && reading.sources@.len() == 0;
            assert(reading.sources.deep_view() =~= Seq::empty());
            if ids@.len() == 0 {
                lemma_used(before, after, request, reading);
            }
        },
        (Stage::ContextSource(old_reading), Reply::Conversation(Ok(source))) => {
            let read = old_reading.sources.deep_view().push(source.deep_view());
            let reading = choose|reading: Reading| #[trigger]
                reads_on(after, request, reading) && crate::orchestrator::turn::same_goal(
                    reading.goal,
                    old_reading.goal,
                ) && reading.conversation@ == old_reading.conversation@
                    && reading.messages.deep_view() == old_reading.messages.deep_view()
                    && reading.ids@ == old_reading.ids@ && reading.sources.deep_view() == read;
            assert(reading.sources.deep_view().len() == reading.sources@.len());
            if read.len() >= old_reading.ids@.len() {
                lemma_used(before, after, request, reading);
            }
        },
        _ => {},
    }
}

} // verus!
