//! What holds of every tool loop, whatever its requests are answered with.

use vstd::prelude::*;

use crate::conversation_store::{
    fresh, law_appended_message_is_listed_last, law_appended_messages_stay_together, StoreView,
};
use crate::models::conversation::ConversationId;
use crate::models::message::{ContentView, MessageView, Role};
use crate::orchestrator::decisions::{pair_of, pending_call, RESOLVE_TOOL_NAME};
use crate::orchestrator::tool_loop::{
    answers, completes, expects, loop_step, policy_for, LoopReply, LoopRequest, Phase, ToolLoop,
    CANCELLED,
};
use crate::orchestrator::turn::Stamp;
use crate::tool::{Policy, ToolRegistry};

verus! {

/// Whoever answers each request with a reply of the kind it asks for may take
/// the next step.
pub proof fn law_loop_replies_fit<R: ToolRegistry>(
    registry: R,
    before: ToolLoop,
    reply: LoopReply,
    stamp: Stamp,
    after: ToolLoop,
    request: LoopRequest,
    next: LoopReply,
)
    requires
        loop_step(registry, before, reply, stamp, after, request),
        answers(request, next),
    ensures
        expects(after.phase, next),
{
}

/// The loop starts with a request whose reply it expects.
pub proof fn law_loop_first_reply_fits(start: ToolLoop, request: LoopRequest, next: LoopReply)
    requires
        completes(start, request),
        answers(request, next),
    ensures
        expects(start.phase, next),
{
}

/// A tool call and, right behind it, the result of that very call.
pub open spec fn is_pair(messages: Seq<MessageView>) -> bool {
    &&& messages.len() == 2
    &&& messages[0].role == Role::Assistant
    &&& messages[0].content.len() == 1
    &&& messages[1].role == Role::User
    &&& messages[1].content.len() == 1
    &&& messages[0].content[0] matches ContentView::ToolCall { id: called, .. }
        && messages[1].content[0] matches ContentView::ToolResult { id: answered, .. } && called
        == answered
}

/// Calls and results are only ever stored together: every group of messages
/// that the loop appends is a call with its own result right behind it, and
/// so is every payload that it resolves a thread with, unless that is empty.
/// No message that it appends alone holds a result.
pub proof fn law_calls_and_results_stay_adjacent<R: ToolRegistry>(
    registry: R,
    before: ToolLoop,
    reply: LoopReply,
    stamp: Stamp,
    after: ToolLoop,
    request: LoopRequest,
)
    requires
        expects(before.phase, reply),
        loop_step(registry, before, reply, stamp, after, request),
    ensures
        request matches LoopRequest::AppendAll { messages, .. } ==> is_pair(messages.deep_view()),
        request matches LoopRequest::Resolve { payload, .. } ==> payload.deep_view().len() == 0
            || is_pair(payload.deep_view()),
        request matches LoopRequest::Append { message, .. } ==> message@.content.len() == 1
            && !(message@.content[0] is ToolResult),
{
}

/// A call that needs confirmation writes nothing into the conversation it was
/// made in: all that its steps append goes to the thread that was opened for
/// it.
pub proof fn law_confirmation_stays_in_its_thread<R: ToolRegistry>(
    registry: R,
    before: ToolLoop,
    reply: LoopReply,
    stamp: Stamp,
    after: ToolLoop,
    request: LoopRequest,
)
    requires
        expects(before.phase, reply),
        loop_step(registry, before, reply, stamp, after, request),
        before.phase is OpeningThread || before.phase is SeedingThread || before.phase
            is EnteringThread || before.phase is Asking || before.phase is AskForwarding,
    ensures
        !(request is AppendAll),
        !(request is Resolve),
        request matches LoopRequest::Append { conversation, .. } ==> match before.phase {
            Phase::OpeningThread { .. } => reply matches LoopReply::Created(Ok(child))
                && conversation == child.id,
            Phase::Asking { thread, .. } => conversation == thread,
            _ => false,
        },
        request matches LoopRequest::SetCurrent(id) ==> (before.phase
            matches Phase::SeedingThread { thread, .. } && id == thread),
{
}

/// A tool runs for one of two reasons only: its policy is `Auto`, or it is
/// the call that a thread was opened for and the thread said to execute it.
/// So a tool of the `Confirm` policy never runs before its thread does.
pub proof fn law_tools_run_only_when_allowed<R: ToolRegistry>(
    registry: R,
    before: ToolLoop,
    reply: LoopReply,
    stamp: Stamp,
    after: ToolLoop,
    request: LoopRequest,
)
    requires
        expects(before.phase, reply),
        loop_step(registry, before, reply, stamp, after, request),
    ensures
        request matches LoopRequest::Execute { name, input } ==> {
            ||| policy_for(registry, name@) == Policy::Auto && name@ != RESOLVE_TOOL_NAME@
            ||| {
                &&& before.phase matches Phase::ReadingThread { execute } && execute
                &&& reply matches LoopReply::Messages(Ok(messages)) && (pending_call(
                    messages.deep_view(),
                ) matches Some(call) && call.name == name@ && call.input == input@)
            }
        },
{
}

/// A thread that did not say to execute runs nothing: it is resolved at once,
/// with the pending call answered as cancelled.
pub proof fn law_cancel_runs_nothing<R: ToolRegistry>(
    registry: R,
    before: ToolLoop,
    reply: LoopReply,
    stamp: Stamp,
    after: ToolLoop,
    request: LoopRequest,
)
    requires
        expects(before.phase, reply),
        loop_step(registry, before, reply, stamp, after, request),
        before.phase matches Phase::ReadingThread { execute } && !execute,
    ensures
        request matches LoopRequest::Resolve { conversation, payload } && conversation
            == before.conversation && match reply {
            LoopReply::Messages(Ok(messages)) => match pending_call(messages.deep_view()) {
                Some(call) => payload.deep_view() == pair_of(
                    stamp.first,
                    stamp.second,
                    call,
                    crate::tool::ToolOutputView { text: CANCELLED@, is_error: false },
                    stamp.now@,
                ),
                None => payload.deep_view().len() == 0,
            },
            _ => payload.deep_view().len() == 0,
        },
{
}

/// Neither the summary nor what is recalled ever changes while an answer is
/// made: only the messages of the prompt are read again.
pub proof fn law_recall_stays_in_the_prompt<R: ToolRegistry>(
    registry: R,
    before: ToolLoop,
    reply: LoopReply,
    stamp: Stamp,
    after: ToolLoop,
    request: LoopRequest,
)
    requires
        loop_step(registry, before, reply, stamp, after, request),
    ensures
        after.prompt@.summary == before.prompt@.summary,
        after.prompt@.recalled == before.prompt@.recalled,
{
}

// ---------------------------------------------------------------------------
// What the store comes to hold
// ---------------------------------------------------------------------------

/// Whether a message holds the result of a tool call.
pub open spec fn holds_result(m: MessageView) -> bool {
    exists|i: int| 0 <= i < m.content.len() && (#[trigger] m.content[i]) is ToolResult
}

/// Whether every result stands right behind the call it answers.
pub open spec fn paired(messages: Seq<MessageView>) -> bool {
    forall|i: int|
        0 <= i < messages.len() && holds_result(#[trigger] messages[i]) ==> 0 < i && is_pair(
            messages.subrange(i - 1, i + 1),
        )
}

/// Whether that holds of what every conversation of a store lists.
pub open spec fn all_paired(store: StoreView) -> bool {
    forall|id: ConversationId| paired(#[trigger] store.list(id))
}

/// The store after what a request asks it to write.
pub open spec fn written(store: StoreView, request: LoopRequest, now: int) -> StoreView {
    match request {
        LoopRequest::Append { conversation, message } => store.append(conversation, message@, now),
        LoopRequest::AppendAll { conversation, messages } => store.append_all(
            conversation,
            messages.deep_view(),
            now,
        ),
        LoopRequest::Resolve { conversation, payload } => match store.open_parent(conversation) {
            Some(parent) => store.resolve(conversation, parent, payload.deep_view(), now),
            None => store,
        },
        LoopRequest::SetCurrent(id) => StoreView { current: Some(id), ..store },
        _ => store,
    }
}

/// Whether a request writes into conversations that are there, and only
/// messages that differ and that no entry of any conversation points at.
pub open spec fn writes_new(store: StoreView, request: LoopRequest) -> bool {
    match request {
        LoopRequest::Append { conversation, message } => store.has(conversation) && fresh_to_all(
            store,
            seq![message@],
        ),
        LoopRequest::AppendAll { conversation, messages } => store.has(conversation)
            && fresh_to_all(store, messages.deep_view()),
        LoopRequest::Resolve { conversation, payload } => fresh_to_all(store, payload.deep_view())
            && (store.open_parent(conversation) matches Some(parent) ==> store.has(parent)
            && parent != conversation),
        _ => true,
    }
}

/// Whether messages differ and no entry of any conversation points at one.
pub open spec fn fresh_to_all(store: StoreView, messages: Seq<MessageView>) -> bool {
    forall|id: ConversationId| #[trigger] fresh(store, id, messages)
}

proof fn lemma_paired_push(messages: Seq<MessageView>, m: MessageView)
    requires
        paired(messages),
        !holds_result(m),
    ensures
        paired(messages.push(m)),
{
    let next = messages.push(m);
    assert forall|i: int| 0 <= i < next.len() && holds_result(#[trigger] next[i]) implies 0 < i
        && is_pair(next.subrange(i - 1, i + 1)) by {
        assert(i < messages.len());
        assert(holds_result(messages[i]));
        assert(next.subrange(i - 1, i + 1) =~= messages.subrange(i - 1, i + 1));
    }
}

proof fn lemma_paired_pair(messages: Seq<MessageView>, pair: Seq<MessageView>)
    requires
        paired(messages),
        is_pair(pair),
    ensures
        paired(messages + pair),
{
    let next = messages + pair;
    assert forall|i: int| 0 <= i < next.len() && holds_result(#[trigger] next[i]) implies 0 < i
        && is_pair(next.subrange(i - 1, i + 1)) by {
        if i < messages.len() {
            assert(holds_result(messages[i]));
            assert(next.subrange(i - 1, i + 1) =~= messages.subrange(i - 1, i + 1));
        } else if i == messages.len() {
            assert(next[i] == pair[0]);
            let j = choose|j: int|
                0 <= j < pair[0].content.len() && (#[trigger] pair[0].content[j]) is ToolResult;
            assert(j == 0);
        } else {
            assert(next.subrange(i - 1, i + 1) =~= pair);
        }
    }
}

proof fn lemma_payload_keeps_pairs(
    store: StoreView,
    id: ConversationId,
    messages: Seq<MessageView>,
    now: int,
)
    requires
        store.has(id),
        all_paired(store),
        fresh_to_all(store, messages),
        messages.len() == 0 || is_pair(messages),
    ensures
        all_paired(store.append_all(id, messages, now)),
{
    let after = store.append_all(id, messages, now);
    assert(fresh(store, id, messages));
    assert forall|other: ConversationId| paired(#[trigger] after.list(other)) by {
        assert(fresh(store, other, messages));
        law_appended_messages_stay_together(store, id, messages, now, other);
        assert(paired(store.list(other)));
        if other == id {
            if messages.len() == 0 {
                assert(store.list(id) + messages =~= store.list(id));
            } else {
                lemma_paired_pair(store.list(id), messages);
            }
        }
    }
}

/// In a store where every tool result stands right behind its call, this
/// stays so whatever the loop writes: in no conversation does a message come
/// between a result and the call it answers.
pub proof fn law_store_keeps_pairs_adjacent<R: ToolRegistry>(
    registry: R,
    before: ToolLoop,
    reply: LoopReply,
    stamp: Stamp,
    after: ToolLoop,
    request: LoopRequest,
    store: StoreView,
    now: int,
)
    requires
        expects(before.phase, reply),
        loop_step(registry, before, reply, stamp, after, request),
        all_paired(store),
        writes_new(store, request),
    ensures
        all_paired(written(store, request, now)),
{
    law_calls_and_results_stay_adjacent(registry, before, reply, stamp, after, request);
    let next = written(store, request, now);
    match request {
        LoopRequest::Append { conversation, message } => {
            assert(!holds_result(message@));
            assert(fresh(store, conversation, seq![message@]));
            assert(seq![message@][0] == message@);
            assert forall|other: ConversationId| paired(#[trigger] next.list(other)) by {
                assert(fresh(store, other, seq![message@]));
                assert(seq![message@][0] == message@);
                law_appended_message_is_listed_last(store, conversation, message@, now, other);
                assert(paired(store.list(other)));
                if other == conversation {
                    lemma_paired_push(store.list(conversation), message@);
                }
            }
        },
        LoopRequest::AppendAll { conversation, messages } => {
            lemma_payload_keeps_pairs(store, conversation, messages.deep_view(), now);
        },
        LoopRequest::Resolve { conversation, payload } => {
            match store.open_parent(conversation) {
                Some(parent) => {
                    lemma_payload_keeps_pairs(store, parent, payload.deep_view(), now);
                    let delivered = store.append_all(parent, payload.deep_view(), now);
                    assert forall|other: ConversationId| paired(#[trigger] next.list(other)) by {
                        assert(paired(delivered.list(other)));
                        assert(next.list(other) == delivered.list(other));
                    }
                },
                None => {},
            }
        },
        LoopRequest::SetCurrent(_) => {
            assert forall|other: ConversationId| paired(#[trigger] next.list(other)) by {
                assert(paired(store.list(other)));
                assert(next.list(other) == store.list(other));
            }
        },
        _ => {},
    }
}

// ---------------------------------------------------------------------------
// Whole loops
// ---------------------------------------------------------------------------

/// A loop from its start: its states, the replies and stamps it was handed,
/// and what it asked for.
pub struct LoopRun {
    pub states: Seq<ToolLoop>,
    pub replies: Seq<LoopReply>,
    pub stamps: Seq<Stamp>,
    pub requests: Seq<LoopRequest>,
}

/// Whether a run is one that the machine can make.
pub open spec fn possible_loop<R: ToolRegistry>(registry: R, run: LoopRun) -> bool {
    &&& run.states.len() == run.replies.len() + 1
    &&& run.requests.len() == run.states.len()
    &&& run.stamps.len() == run.replies.len()
    &&& completes(run.states[0], run.requests[0])
    &&& forall|i: int|
        #![trigger run.replies[i]]
        0 <= i < run.replies.len() ==> expects(run.states[i].phase, run.replies[i]) && loop_step(
            registry,
            run.states[i],
            run.replies[i],
            run.stamps[i],
            run.states[i + 1],
            run.requests[i + 1],
        )
}

/// The text that the user was sent since the last completion was asked for.
pub open spec fn heard(requests: Seq<LoopRequest>) -> Seq<char>
    decreases requests.len(),
{
    if requests.len() == 0 {
        Seq::empty()
    } else {
        match requests.last() {
            LoopRequest::Complete { .. } => Seq::empty(),
            LoopRequest::Forward(piece) => heard(requests.drop_last()) + piece@,
            _ => heard(requests.drop_last()),
        }
    }
}

/// The text that a phase has gathered.
pub open spec fn gathered(phase: Phase) -> Option<Seq<char>> {
    match phase {
        Phase::Listening { text, .. } => Some(text@),
        Phase::Forwarding { text, .. } => Some(text@),
        Phase::Asking { text, .. } => Some(text@),
        Phase::AskForwarding { text, .. } => Some(text@),
        _ => None,
    }
}

proof fn lemma_heard<R: ToolRegistry>(registry: R, run: LoopRun, n: int)
    requires
        possible_loop(registry, run),
        0 <= n < run.states.len(),
    ensures
        gathered(run.states[n].phase) matches Some(text) ==> text == heard(
            run.requests.take(n + 1),
        ),
    decreases n,
{
    let here = run.requests.take(n + 1);
    assert(here.last() == run.requests[n]);
    assert(here.drop_last() =~= run.requests.take(n));
    if n > 0 {
        lemma_heard(registry, run, n - 1);
        let reply = run.replies[n - 1];
        assert(run.requests.take(n - 1 + 1) == run.requests.take(n));
        match run.requests[n] {
            LoopRequest::Complete { .. } => {
                assert(gathered(run.states[n].phase) matches Some(text) && text =~= Seq::<
                    char,
                >::empty());
            },
            _ => {},
        }
    } else {
        assert(gathered(run.states[0].phase) matches Some(text) && text =~= Seq::<char>::empty());
    }
}

/// What is stored of an answer, and of a confirmation question, is exactly
/// the text that the user was sent, in order and in full.
pub proof fn law_stored_text_is_what_was_heard<R: ToolRegistry>(
    registry: R,
    run: LoopRun,
    n: int,
)
    requires
        possible_loop(registry, run),
        0 < n < run.states.len(),
        run.states[n - 1].phase is Listening || run.states[n - 1].phase is Asking,
        run.requests[n] is Append,
    ensures
        run.requests[n]->Append_message@.content == seq![
            ContentView::Text { text: heard(run.requests.take(n)) },
        ],
{
    lemma_heard(registry, run, n - 1);
    let reply = run.replies[n - 1];
    assert(run.requests.take(n - 1 + 1) == run.requests.take(n));
}

} // verus!
