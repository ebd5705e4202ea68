//! What each step of the tool loop does with what it was handed: what is sent
//! to the user, stored, run and asked of the model.

use vstd::prelude::*;

use crate::failure::Failure;
use crate::json::{pretty_json, pretty_or_compact, string_member};
use crate::language_model::{PromptView, ToolCall, ToolCallView};
use crate::models::message::{Content, ContentView, Message, MessageId, Role};
use crate::orchestrator::decision_laws::{law_question_names_tool_and_input, shows_at};
use crate::orchestrator::decisions::confirm_text;
use crate::orchestrator::tool_loop::{
    expects, loop_step, LoopReply, LoopRequest, Phase, StreamEvent, ToolLoop,
};
use crate::orchestrator::turn::Stamp;
use crate::tool::{Policy, ToolOutput, ToolRegistry};

verus! {

/// Whether a message is the assistant's and holds one call and nothing else.
pub open spec fn states_call(m: Message, id: MessageId, now: int, call: ToolCallView) -> bool {
    &&& m.id == id
    &&& m.role == Role::Assistant
    &&& m.timestamp@ == now
    &&& m.content@.len() == 1
    &&& m.content@[0] matches Content::ToolCall { id, name, input } && id@ == call.id && name@
        == call.name && input@ == call.input
}

/// Whether a message is the user's and holds one result and nothing else.
pub open spec fn states_result(
    m: Message,
    id: MessageId,
    now: int,
    call: Seq<char>,
    text: Seq<char>,
    failed: bool,
) -> bool {
    &&& m.id == id
    &&& m.role == Role::User
    &&& m.timestamp@ == now
    &&& m.content@.len() == 1
    &&& m.content@[0] matches Content::ToolResult { id, output, is_error } && id@ == call && output@
        == text && is_error == failed
}

/// Whether a message is the assistant's and holds one text and nothing else.
pub open spec fn states_text(m: Message, id: MessageId, now: int, text: Seq<char>) -> bool {
    &&& m.id == id
    &&& m.role == Role::Assistant
    &&& m.timestamp@ == now
    &&& m.content@.len() == 1
    &&& m.content@[0] matches Content::Text { text: t } && t@ == text
}

/// Whether two messages are a call and, behind it, the answer to it: what the
/// tool returned, word for word and with its error flag, or the failure to run
/// it as an error.
pub open spec fn answered(
    messages: Seq<Message>,
    stamp: Stamp,
    call: ToolCall,
    result: Result<ToolOutput, Failure>,
) -> bool {
    &&& messages.len() == 2
    &&& states_call(messages[0], stamp.first, stamp.now@, call@)
    &&& match result {
        Ok(output) => states_result(
            messages[1],
            stamp.second,
            stamp.now@,
            call.id@,
            output.text@,
            output.is_error,
        ),
        Err(failure) => states_result(
            messages[1],
            stamp.second,
            stamp.now@,
            call.id@,
            failure.message@,
            true,
        ),
    }
}

proof fn lemma_one_piece(m: Message)
    ensures
        m@.content.len() == m.content@.len(),
        m.content@.len() > 0 ==> m@.content[0] == m.content@[0]@,
{
}

/// What a tool returned is stored as it came, next to its call: its text and
/// its error flag, in the conversation for a tool that ran at once, and as
/// what the thread delivers for one that was confirmed. A tool that could not
/// be run is answered with the failure, as an error.
pub proof fn law_tool_answers_are_stored_as_they_came<R: ToolRegistry>(
    registry: R,
    before: ToolLoop,
    reply: LoopReply,
    stamp: Stamp,
    after: ToolLoop,
    request: LoopRequest,
)
    requires
        loop_step(registry, before, reply, stamp, after, request),
    ensures
        match (before.phase, reply) {
            (Phase::Executing { call, .. }, LoopReply::Executed(result)) => request
                matches LoopRequest::AppendAll { conversation, messages } && conversation
                == before.conversation && answered(messages@, stamp, call, result),
            (Phase::ExecutingPending { call }, LoopReply::Executed(result)) => request
                matches LoopRequest::Resolve { conversation, payload } && conversation
                == before.conversation && answered(payload@, stamp, call, result),
            _ => true,
        },
{
    match request {
        LoopRequest::AppendAll { messages, .. } => {
            assert(messages.deep_view().len() == messages@.len());
            if messages@.len() == 2 {
                assert(messages.deep_view()[0] == messages@[0]@);
                assert(messages.deep_view()[1] == messages@[1]@);
                lemma_one_piece(messages@[0]);
                lemma_one_piece(messages@[1]);
            }
        },
        LoopRequest::Resolve { payload, .. } => {
            assert(payload.deep_view().len() == payload@.len());
            if payload@.len() == 2 {
                assert(payload.deep_view()[0] == payload@[0]@);
                assert(payload.deep_view()[1] == payload@[1]@);
                lemma_one_piece(payload@[0]);
                lemma_one_piece(payload@[1]);
            }
        },
        _ => {},
    }
}

/// Once a call and its answer are stored, the conversation is read again, and
/// every message of it, with its role and all its content, is what the model
/// is shown from then on. The summary and what is recalled stay as they were.
pub proof fn law_model_is_shown_the_stored_answer<R: ToolRegistry>(
    registry: R,
    before: ToolLoop,
    reply: LoopReply,
    stamp: Stamp,
    after: ToolLoop,
    request: LoopRequest,
)
    requires
        loop_step(registry, before, reply, stamp, after, request),
    ensures
        match (before.phase, reply) {
            (Phase::StoringPair { .. }, LoopReply::Done(Ok(_))) => {
                &&& request matches LoopRequest::List(id) && id == before.conversation
                &&& after.phase is Relisting
            },
            (Phase::StoringPair { .. }, LoopReply::Done(Err(_))) => request is Stop,
            (Phase::Relisting { .. }, LoopReply::Messages(Ok(messages))) => {
                &&& after.prompt@.messages.len() == messages@.len()
                &&& forall|i: int|
                    0 <= i < messages@.len() ==> (#[trigger] after.prompt@.messages[i]).role
                        == messages@[i].role && after.prompt@.messages[i].content
                        == messages@[i].content.deep_view()
                &&& after.prompt@.summary == before.prompt@.summary
                &&& after.prompt@.recalled == before.prompt@.recalled
            },
            (Phase::Relisting { .. }, LoopReply::Messages(Err(_))) => request is Stop,
            _ => true,
        },
        match request {
            LoopRequest::Complete { prompt, tools } => {
                &&& tools.deep_view() == before.tools.deep_view()
                &&& before.phase is EnteringThread || prompt@ == after.prompt@
            },
            _ => true,
        },
{
}

/// The calls that are to be taken up next, and whether a thread is waiting for
/// the user, if a reply leads to that.
pub open spec fn next_up(phase: Phase, reply: LoopReply) -> Option<(Seq<ToolCall>, bool)> {
    match (phase, reply) {
        (
            Phase::Listening { text, calls },
            LoopReply::Event(StreamEvent::End),
        ) => if text@.len() == 0 && calls@.len() > 0 {
            Some((calls@, false))
        } else {
            None
        },
        (Phase::Persisting { calls }, LoopReply::Done(Ok(_))) => if calls@.len() > 0 {
            Some((calls@, false))
        } else {
            None
        },
        (Phase::Relisting { queue }, LoopReply::Messages(Ok(_))) => Some(
            (queue.calls@, queue.confirming),
        ),
        (
            Phase::Asking { text, queue, .. },
            LoopReply::Event(StreamEvent::End),
        ) => if text@.len() == 0 {
            Some((queue.calls@, queue.confirming))
        } else {
            None
        },
        (Phase::StoringQuestion { queue }, LoopReply::Done(_)) => Some(
            (queue.calls@, queue.confirming),
        ),
        _ => None,
    }
}

/// Whether calls are those of a list behind its first one, in order.
pub open spec fn rest_of(left: Seq<ToolCall>, calls: Seq<ToolCall>) -> bool {
    &&& left.len() + 1 == calls.len()
    &&& forall|i: int| 0 <= i < left.len() ==> (#[trigger] left[i])@ == calls[i + 1]@
}

/// Calls are taken up one at a time and in order, and none is lost. A call of
/// `__resolve` reads the thread, to run its call exactly if the action is
/// `execute`; a call whose tool asks for confirmation opens a thread under the
/// conversation; any other call is run, under its name and with its input.
/// When none is left the model is asked again, unless a thread is waiting for
/// the user.
pub proof fn law_calls_are_taken_up_in_order<R: ToolRegistry>(
    registry: R,
    before: ToolLoop,
    reply: LoopReply,
    stamp: Stamp,
    after: ToolLoop,
    request: LoopRequest,
)
    requires
        loop_step(registry, before, reply, stamp, after, request),
        next_up(before.phase, reply) is Some,
    ensures
        ({
            let (calls, confirming) = next_up(before.phase, reply)->0;
            if calls.len() == 0 {
                if confirming {
                    request is Stop
                } else {
                    request is Complete && after.phase is Listening
                }
            } else if calls[0].name@ == "__resolve"@ {
                &&& request matches LoopRequest::List(id) && id == before.conversation
                &&& after.phase matches Phase::ReadingThread { execute } && execute == (
                string_member(calls[0].input@, "action"@) == Some("execute"@))
            } else if registry.policy_of(calls[0].name@) == Some(Policy::Confirm) {
                &&& request matches LoopRequest::Create(parent) && parent == before.conversation
                &&& after.phase matches Phase::OpeningThread { call, queue } && call@ == calls[0]@
                    && rest_of(queue.calls@, calls) && queue.confirming == confirming
            } else {
                &&& request matches LoopRequest::Execute { name, input } && name@ == calls[0].name@
                    && input@ == calls[0].input@
                &&& after.phase matches Phase::Executing { call, queue } && call@ == calls[0]@
                    && rest_of(queue.calls@, calls) && queue.confirming == confirming
            }
        }),
{
    let (calls, confirming) = next_up(before.phase, reply)->0;
    let listed = match before.phase {
        Phase::Listening { calls, .. } => calls,
        Phase::Persisting { calls } => calls,
        Phase::Relisting { queue } => queue.calls,
        Phase::Asking { queue, .. } => queue.calls,
        Phase::StoringQuestion { queue } => queue.calls,
        _ => arbitrary(),
    };
    assert(listed@ == calls);
    let seen = listed.deep_view();
    assert(seen.len() == calls.len());
    if calls.len() > 0 {
        assert(seen[0] == calls[0]@);
        let queue = match after.phase {
            Phase::OpeningThread { queue, .. } => Some(queue),
            Phase::Executing { queue, .. } => Some(queue),
            _ => None,
        };
        if let Some(queue) = queue {
            let left = queue.calls.deep_view();
            assert(left.len() == queue.calls@.len());
            assert forall|i: int| 0 <= i < queue.calls@.len() implies (
            #[trigger] queue.calls@[i])@ == calls[i + 1]@ by {
                assert(left[i] == queue.calls@[i]@);
                assert(seen.drop_first()[i] == seen[i + 1]);
                assert(seen[i + 1] == calls[i + 1]@);
            }
        }
    }
}

/// While an answer comes in, every piece of text goes to the user as it came
/// and is gathered, every call is kept in order, and a failure is reported. At
/// its end the gathered text is stored as the assistant's message in the
/// conversation; an answer without text and calls ends the turn.
pub proof fn law_answer_is_streamed_and_stored<R: ToolRegistry>(
    registry: R,
    before: ToolLoop,
    event: StreamEvent,
    stamp: Stamp,
    after: ToolLoop,
    request: LoopRequest,
)
    requires
        before.phase is Listening,
        loop_step(registry, before, LoopReply::Event(event), stamp, after, request),
    ensures
        before.phase matches Phase::Listening { text, calls } && (match event {
            StreamEvent::Text(piece) => {
                &&& request matches LoopRequest::Forward(sent) && sent@ == piece@
                &&& after.phase matches Phase::Forwarding { text: t, calls: c } && t@ == text@
                    + piece@ && c.deep_view() == calls.deep_view()
            },
            StreamEvent::ToolCall(call) => {
                &&& request is NextEvent
                &&& after.phase matches Phase::Listening { text: t, calls: c } && t@ == text@
                    && c@.len() == calls@.len() + 1 && c@.last()@ == call@ && forall|i: int|
                    0 <= i < calls@.len() ==> (#[trigger] c@[i])@ == calls@[i]@
            },
            StreamEvent::Failed(failure) => request matches LoopRequest::ForwardError(sent)
                && sent.message@ == failure.message@,
            StreamEvent::End => {
                &&& text@.len() > 0 ==> {
                    &&& request matches LoopRequest::Append { conversation, message }
                        && conversation == before.conversation && states_text(
                        message,
                        stamp.first,
                        stamp.now@,
                        text@,
                    )
                    &&& after.phase matches Phase::Persisting { calls: c } && c.deep_view()
                        == calls.deep_view()
                }
                &&& text@.len() == 0 && calls@.len() == 0 ==> request is Stop
            },
        }),
{
    match (before.phase, event) {
        (Phase::Listening { calls, .. }, StreamEvent::ToolCall(call)) => {
            if let Phase::Listening { calls: c, .. } = after.phase {
                let seen = calls.deep_view().push(call@);
                assert(c.deep_view().len() == c@.len());
                assert(c.deep_view()[c@.len() - 1] == c@.last()@);
                assert(seen[calls@.len() as int] == call@);
                assert forall|i: int| 0 <= i < calls@.len() implies (#[trigger] c@[i])@
                    == calls@[i]@ by {
                    assert(c.deep_view()[i] == c@[i]@);
                    assert(seen[i] == calls.deep_view()[i]);
                }
            }
        },
        (Phase::Listening { .. }, StreamEvent::End) => {
            if let LoopRequest::Append { message, .. } = request {
                lemma_one_piece(message);
            }
        },
        _ => {},
    }
}

/// Where the user has gone or a write has failed, the turn ends; else it goes
/// on where it was. A resolved thread and a reported failure end it.
pub proof fn law_turn_ends_where_it_cannot_go_on<R: ToolRegistry>(
    registry: R,
    before: ToolLoop,
    reply: LoopReply,
    stamp: Stamp,
    after: ToolLoop,
    request: LoopRequest,
)
    requires
        loop_step(registry, before, reply, stamp, after, request),
    ensures
        match (before.phase, reply) {
            (Phase::Forwarding { text, calls }, LoopReply::Delivered(listening)) => if listening {
                &&& request is NextEvent
                &&& after.phase matches Phase::Listening { text: t, calls: c } && t@ == text@
                    && c.deep_view() == calls.deep_view()
            } else {
                request is Stop
            },
            (
                Phase::AskForwarding { thread, text, queue },
                LoopReply::Delivered(listening),
            ) => if listening {
                &&& request is NextEvent
                &&& after.phase matches Phase::Asking { thread: t, text: s, queue: q } && t
                    == thread && s@ == text@ && q.calls.deep_view() == queue.calls.deep_view()
                    && q.confirming == queue.confirming
            } else {
                request is Stop
            },
            (Phase::Persisting { calls }, LoopReply::Done(done)) => done is Err || calls@.len() == 0
                ==> request is Stop,
            (Phase::OpeningThread { .. }, LoopReply::Created(Err(_))) => request is Stop,
            (Phase::SeedingThread { .. }, LoopReply::Done(Err(_))) => request is Stop,
            (Phase::EnteringThread { .. }, LoopReply::Done(Err(_))) => request is Stop,
            _ => true,
        },
        before.phase is Resolving ==> request is Stop,
        before.phase is ReportingError ==> request is Stop,
        after.conversation == before.conversation,
        after.tools.deep_view() == before.tools.deep_view(),
{
}

/// Whether a prompt is one message of the user, one text that names the tool of
/// a call and, behind it, shows the call's input.
pub open spec fn asks_about(prompt: PromptView, call: ToolCallView) -> bool {
    let input = pretty_or_compact(pretty_json(call.input), call.input);
    &&& prompt.summary is None
    &&& prompt.recalled.len() == 0
    &&& prompt.messages.len() == 1
    &&& prompt.messages[0].role == Role::User
    &&& prompt.messages[0].content.len() == 1
    &&& prompt.messages[0].content[0] matches ContentView::Text { text } && exists|a: int, b: int|
        a + call.name.len() <= b && #[trigger] shows_at(text, call.name, a)
            && #[trigger] shows_at(text, input, b)
}

/// A call that needs confirmation is written into a thread of its own, the
/// thread becomes current, and the model is asked to put the call to the user:
/// under its name and with its input, and with all tools at hand. What it says
/// goes to the user piece by piece and is stored in the thread in the end. The
/// calls behind it stay in line.
pub proof fn law_confirmation_is_asked_in_a_thread<R: ToolRegistry>(
    registry: R,
    before: ToolLoop,
    reply: LoopReply,
    stamp: Stamp,
    after: ToolLoop,
    request: LoopRequest,
)
    requires
        loop_step(registry, before, reply, stamp, after, request),
    ensures
        match (before.phase, reply) {
            (Phase::OpeningThread { call, queue }, LoopReply::Created(Ok(child))) => {
                &&& request matches LoopRequest::Append { conversation, message } && conversation
                    == child.id && states_call(message, stamp.first, stamp.now@, call@)
                &&& after.phase matches Phase::SeedingThread { call: c, thread, queue: q } && c@
                    == call@ && thread == child.id && q.calls.deep_view()
                    == queue.calls.deep_view() && q.confirming == queue.confirming
            },
            (Phase::SeedingThread { call, thread, queue }, LoopReply::Done(Ok(_))) => {
                &&& request matches LoopRequest::SetCurrent(id) && id == thread
                &&& after.phase matches Phase::EnteringThread { call: c, thread: t, queue: q } && c@
                    == call@ && t == thread && q.calls.deep_view() == queue.calls.deep_view()
                    && q.confirming == queue.confirming
            },
            (Phase::EnteringThread { call, thread, queue }, LoopReply::Done(Ok(_))) => {
                &&& request matches LoopRequest::Complete { prompt, tools } && tools.deep_view()
                    == before.tools.deep_view() && asks_about(prompt@, call@)
                &&& after.phase matches Phase::Asking { thread: t, text, queue: q } && t == thread
                    && text@.len() == 0 && q.confirming && q.calls.deep_view()
                    == queue.calls.deep_view()
            },
            (
                Phase::Asking { thread, text, queue },
                LoopReply::Event(StreamEvent::Text(piece)),
            ) => {
                &&& request matches LoopRequest::Forward(sent) && sent@ == piece@
                &&& after.phase matches Phase::AskForwarding { thread: t, text: s, queue: q } && t
                    == thread && s@ == text@ + piece@ && q.calls.deep_view()
                    == queue.calls.deep_view() && q.confirming == queue.confirming
            },
            (
                Phase::Asking { thread, text, queue },
                LoopReply::Event(StreamEvent::End),
            ) => text@.len() > 0 ==> {
                &&& request matches LoopRequest::Append { conversation, message } && conversation
                    == thread && states_text(message, stamp.first, stamp.now@, text@)
                &&& after.phase matches Phase::StoringQuestion { queue: q } && q.calls.deep_view()
                    == queue.calls.deep_view() && q.confirming == queue.confirming
            },
            (
                Phase::Asking { .. },
                LoopReply::Event(StreamEvent::Failed(failure)),
            ) => request matches LoopRequest::ForwardError(sent) && sent.message@
                == failure.message@,
            _ => true,
        },
{
    match request {
        LoopRequest::Append { message, .. } => {
            lemma_one_piece(message);
        },
        _ => {},
    }
    match before.phase {
        Phase::EnteringThread { call, .. } => {
            let input = pretty_or_compact(pretty_json(call.input@), call.input@);
            law_question_names_tool_and_input(call.name@, input);
            let text = confirm_text(call.name@, input);
            let (a, b) = choose|a: int, b: int|
                a + call.name@.len() <= b && #[trigger] shows_at(text, call.name@, a)
                    && #[trigger] shows_at(text, input, b);
            assert(shows_at(text, call.name@, a) && shows_at(text, input, b));
        },
        _ => {},
    }
}

/// The call of a thread is run when the thread says so, under its name and
/// with its input; when it does not, the thread is resolved with the call and
/// the word that the user has cancelled it, which is no error. A thread that
/// cannot be read or is about no call is resolved with nothing.
pub proof fn law_thread_is_run_or_cancelled<R: ToolRegistry>(
    registry: R,
    before: ToolLoop,
    reply: LoopReply,
    stamp: Stamp,
    after: ToolLoop,
    request: LoopRequest,
    pending: Option<ToolCallView>,
)
    requires
        loop_step(registry, before, reply, stamp, after, request),
        before.phase is ReadingThread,
        expects(before.phase, reply),
        pending == match reply {
            LoopReply::Messages(Ok(messages)) => crate::orchestrator::decisions::pending_call(
                messages.deep_view(),
            ),
            _ => None,
        },
    ensures
        before.phase matches Phase::ReadingThread { execute } && (match pending {
            Some(call) => if execute {
                &&& request matches LoopRequest::Execute { name, input } && name@ == call.name
                    && input@ == call.input
                &&& after.phase matches Phase::ExecutingPending { call: c } && c@ == call
            } else {
                request matches LoopRequest::Resolve { conversation, payload } && conversation
                    == before.conversation && payload@.len() == 2 && states_call(
                    payload@[0],
                    stamp.first,
                    stamp.now@,
                    call,
                ) && states_result(
                    payload@[1],
                    stamp.second,
                    stamp.now@,
                    call.id,
                    "Tool call cancelled by user."@,
                    false,
                )
            },
            None => request matches LoopRequest::Resolve { conversation, payload } && conversation
                == before.conversation && payload@.len() == 0,
        }),
{
    match request {
        LoopRequest::Resolve { payload, .. } => {
            assert(payload.deep_view().len() == payload@.len());
            if payload@.len() == 2 {
                assert(payload.deep_view()[0] == payload@[0]@);
                assert(payload.deep_view()[1] == payload@[1]@);
                lemma_one_piece(payload@[0]);
                lemma_one_piece(payload@[1]);
            }
        },
        _ => {},
    }
}

} // verus!
