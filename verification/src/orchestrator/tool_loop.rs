//! The answer to a turn: completions, tool calls and confirmation threads, as
//! a state machine that asks for one thing at a time.
//!
//! A tool of the `Auto` policy runs at once; its call and result are stored
//! side by side and the model is asked again. A tool of the `Confirm` policy
//! opens a thread, a child conversation in which the user is asked; nothing is
//! written to the parent until the thread is resolved.

use vstd::prelude::*;
use vstd::string::*;

use crate::failure::Failure;
use crate::json::{pretty_json, pretty_or_compact, string_member, Json};
use crate::language_model::{Prompt, PromptView, ToolCall, ToolCallView};
use crate::models::conversation::{Conversation, ConversationId};
use crate::models::message::{Message, MessageView};
use crate::orchestrator::decisions::{
    assistant_message, assistant_view, build_confirm_prompt, call_message, call_view, confirm_text,
    pair_of, pending_call, pending_call_from_thread, prompt_messages, prompt_messages_of,
    question_view, resolve_definition, tool_pair_messages, tools_with_resolve_sentinel,
    RESOLVE_TOOL_NAME,
};
use crate::orchestrator::turn::Stamp;
use crate::text::same;
use crate::tool::{
    clone_definitions, Policy, ToolDefinition, ToolOutput, ToolOutputView, ToolRegistry,
};

verus! {

/// What is answered to a call that the user has refused.
pub const CANCELLED: &'static str = "Tool call cancelled by user.";

/// What the loop asks for.
#[derive(Debug)]
pub enum LoopRequest {
    /// A completion of the prompt; the reply is its first event.
    Complete { prompt: Prompt, tools: Vec<ToolDefinition> },
    /// The next event of the completion.
    NextEvent,
    /// A piece of text for the user.
    Forward(String),
    /// A failure for the user.
    ForwardError(Failure),
    Append { conversation: ConversationId, message: Message },
    /// Messages that are stored together or not at all.
    AppendAll { conversation: ConversationId, messages: Vec<Message> },
    List(ConversationId),
    Execute { name: String, input: Json },
    /// A new conversation under this parent.
    Create(ConversationId),
    SetCurrent(ConversationId),
    /// The payload for the parent of a thread, which is then closed.
    Resolve { conversation: ConversationId, payload: Vec<Message> },
    /// The loop is over.
    Stop,
}

/// An event of a completion.
#[derive(Debug)]
pub enum StreamEvent {
    Text(String),
    ToolCall(ToolCall),
    Failed(Failure),
    End,
}

/// The reply to a request.
#[derive(Debug)]
pub enum LoopReply {
    Event(StreamEvent),
    /// Whether the user is still listening.
    Delivered(bool),
    Done(Result<(), Failure>),
    Messages(Result<Vec<Message>, Failure>),
    Executed(Result<ToolOutput, Failure>),
    Created(Result<Conversation, Failure>),
}

/// The calls that are left, and whether a thread was opened for an earlier
/// one.
#[derive(Debug)]
pub struct Queue {
    pub calls: Vec<ToolCall>,
    pub confirming: bool,
}

/// What the loop is waiting for.
#[derive(Debug)]
pub enum Phase {
    Listening { text: String, calls: Vec<ToolCall> },
    Forwarding { text: String, calls: Vec<ToolCall> },
    Persisting { calls: Vec<ToolCall> },
    ReadingThread { execute: bool },
    ExecutingPending { call: ToolCall },
    Resolving,
    Executing { call: ToolCall, queue: Queue },
    StoringPair { queue: Queue },
    Relisting { queue: Queue },
    OpeningThread { call: ToolCall, queue: Queue },
    SeedingThread { call: ToolCall, thread: ConversationId, queue: Queue },
    EnteringThread { call: ToolCall, thread: ConversationId, queue: Queue },
    Asking { thread: ConversationId, text: String, queue: Queue },
    AskForwarding { thread: ConversationId, text: String, queue: Queue },
    StoringQuestion { queue: Queue },
    ReportingError,
    Finished,
}

/// The tool loop of one turn.
#[derive(Debug)]
pub struct ToolLoop {
    pub conversation: ConversationId,
    pub prompt: Prompt,
    pub tools: Vec<ToolDefinition>,
    pub phase: Phase,
}

// ---------------------------------------------------------------------------
// Which reply answers which request
// ---------------------------------------------------------------------------

/// Whether a reply is of the kind that a request asks for.
pub open spec fn answers(request: LoopRequest, reply: LoopReply) -> bool {
    match request {
        LoopRequest::Complete { .. } => reply is Event,
        LoopRequest::NextEvent => reply is Event,
        LoopRequest::Forward(_) => reply is Delivered,
        LoopRequest::ForwardError(_) => reply is Delivered,
        LoopRequest::Append { .. } => reply is Done,
        LoopRequest::AppendAll { .. } => reply is Done,
        LoopRequest::List(_) => reply is Messages,
        LoopRequest::Execute { .. } => reply is Executed,
        LoopRequest::Create(_) => reply is Created,
        LoopRequest::SetCurrent(_) => reply is Done,
        LoopRequest::Resolve { .. } => reply is Done,
        LoopRequest::Stop => false,
    }
}

/// Whether a phase can take a reply.
pub open spec fn expects(phase: Phase, reply: LoopReply) -> bool {
    match phase {
        Phase::Listening { .. } => reply is Event,
        Phase::Forwarding { .. } => reply is Delivered,
        Phase::Persisting { .. } => reply is Done,
        Phase::ReadingThread { .. } => reply is Messages,
        Phase::ExecutingPending { .. } => reply is Executed,
        Phase::Resolving => reply is Done,
        Phase::Executing { .. } => reply is Executed,
        Phase::StoringPair { .. } => reply is Done,
        Phase::Relisting { .. } => reply is Messages,
        Phase::OpeningThread { .. } => reply is Created,
        Phase::SeedingThread { .. } => reply is Done,
        Phase::EnteringThread { .. } => reply is Done,
        Phase::Asking { .. } => reply is Event,
        Phase::AskForwarding { .. } => reply is Delivered,
        Phase::StoringQuestion { .. } => reply is Done,
        Phase::ReportingError => reply is Delivered,
        Phase::Finished => false,
    }
}

// ---------------------------------------------------------------------------
// What a step does
// ---------------------------------------------------------------------------

pub open spec fn stops(after: ToolLoop, request: LoopRequest) -> bool {
    after.phase is Finished && request is Stop
}

pub open spec fn same_queue(a: Queue, b: Queue) -> bool {
    a.calls.deep_view() == b.calls.deep_view() && a.confirming == b.confirming
}

/// The model is asked again.
pub open spec fn completes(after: ToolLoop, request: LoopRequest) -> bool {
    &&& after.phase matches Phase::Listening { text, calls } && text@.len() == 0
        && calls.deep_view().len() == 0
    &&& request matches LoopRequest::Complete { prompt, tools } && prompt@ == after.prompt@
        && tools.deep_view() == after.tools.deep_view()
}

/// The policy that a call is handled by: that of its tool, or `Auto` for a
/// tool that is not registered.
pub open spec fn policy_for<R: ToolRegistry>(registry: R, name: Seq<char>) -> Policy {
    match registry.policy_of(name) {
        Some(policy) => policy,
        None => Policy::Auto,
    }
}

/// Whether a call of the built-in tool asks for the pending call to be run.
/// Anything but a clear yes is a no.
pub open spec fn says_execute(action: Option<Seq<char>>) -> bool {
    action == Some("execute"@)
}

/// The next call is taken up. With none left, the model is asked again,
/// unless a thread is waiting for the user.
pub open spec fn dispatches<R: ToolRegistry>(
    registry: R,
    after: ToolLoop,
    request: LoopRequest,
    calls: Seq<ToolCallView>,
    confirming: bool,
) -> bool {
    if calls.len() == 0 {
        if confirming {
            stops(after, request)
        } else {
            completes(after, request)
        }
    } else {
        let call = calls[0];
        if call.name == RESOLVE_TOOL_NAME@ {
            &&& after.phase matches Phase::ReadingThread { execute } && execute == says_execute(
                string_member(call.input, "action"@),
            )
            &&& request matches LoopRequest::List(id) && id == after.conversation
        } else {
            match policy_for(registry, call.name) {
                Policy::Auto => {
                    &&& after.phase matches Phase::Executing { call: c, queue } && c@ == call
                        && queue.calls.deep_view() == calls.drop_first() && queue.confirming
                        == confirming
                    &&& request matches LoopRequest::Execute { name, input } && name@ == call.name
                        && input@ == call.input
                },
                Policy::Confirm => {
                    &&& after.phase matches Phase::OpeningThread { call: c, queue } && c@ == call
                        && queue.calls.deep_view() == calls.drop_first() && queue.confirming
                        == confirming
                    &&& request matches LoopRequest::Create(parent) && parent == after.conversation
                },
            }
        }
    }
}

/// What a tool answered; a failure to run it is an answer too.
pub open spec fn outcome(result: Result<ToolOutput, Failure>) -> ToolOutputView {
    match result {
        Ok(output) => output@,
        Err(failure) => ToolOutputView { text: failure@, is_error: true },
    }
}

/// The thread is closed with the pending call and its result, or with
/// nothing where no call is pending.
pub open spec fn resolves(
    after: ToolLoop,
    request: LoopRequest,
    payload: Seq<MessageView>,
) -> bool {
    &&& after.phase is Resolving
    &&& request matches LoopRequest::Resolve { conversation, payload: p } && conversation
        == after.conversation && p.deep_view() == payload
}

/// One step of the loop: from what it was waiting for and the reply, to what
/// it waits for next and what it asks.
pub open spec fn loop_step<R: ToolRegistry>(
    registry: R,
    before: ToolLoop,
    reply: LoopReply,
    stamp: Stamp,
    after: ToolLoop,
    request: LoopRequest,
) -> bool {
    &&& after.conversation == before.conversation
    &&& after.tools.deep_view() == before.tools.deep_view()
    &&& !(before.phase is Relisting) ==> after.prompt@ == before.prompt@
    &&& match (before.phase, reply) {
        (Phase::Listening { text, calls }, LoopReply::Event(event)) => match event {
            StreamEvent::Text(piece) => {
                &&& after.phase matches Phase::Forwarding { text: t, calls: c } && t@ == text@
                    + piece@ && c.deep_view() == calls.deep_view()
                &&& request matches LoopRequest::Forward(p) && p@ == piece@
            },
            StreamEvent::ToolCall(call) => {
                &&& after.phase matches Phase::Listening { text: t, calls: c } && t@ == text@
                    && c.deep_view() == calls.deep_view().push(call@)
                &&& request is NextEvent
            },
            StreamEvent::Failed(failure) => {
                &&& after.phase is ReportingError
                &&& request matches LoopRequest::ForwardError(f) && f@ == failure@
            },
            StreamEvent::End => if text@.len() > 0 {
                &&& after.phase matches Phase::Persisting { calls: c } && c.deep_view()
                    == calls.deep_view()
                &&& request matches LoopRequest::Append { conversation, message } && conversation
                    == after.conversation && message@ == assistant_view(
                    stamp.first,
                    text@,
                    stamp.now@,
                )
            } else if calls@.len() == 0 {
                stops(after, request)
            } else {
                dispatches(registry, after, request, calls.deep_view(), false)
            },
        },
        (Phase::Forwarding { text, calls }, LoopReply::Delivered(listening)) => if listening {
            &&& after.phase matches Phase::Listening { text: t, calls: c } && t@ == text@
                && c.deep_view() == calls.deep_view()
            &&& request is NextEvent
        } else {
            stops(after, request)
        },
        (Phase::Persisting { calls }, LoopReply::Done(done)) => match done {
            Ok(_) => if calls@.len() == 0 {
                stops(after, request)
            } else {
                dispatches(registry, after, request, calls.deep_view(), false)
            },
            Err(_) => stops(after, request),
        },
        (Phase::ReadingThread { execute }, LoopReply::Messages(listed)) => {
            let pending = match listed {
                Ok(messages) => pending_call(messages.deep_view()),
                Err(_) => None,
            };
            match pending {
                Some(call) => if execute {
                    &&& after.phase matches Phase::ExecutingPending { call: c } && c@ == call
                    &&& request matches LoopRequest::Execute { name, input } && name@ == call.name
                        && input@ == call.input
                } else {
                    resolves(
                        after,
                        request,
                        pair_of(
                            stamp.first,
                            stamp.second,
                            call,
                            ToolOutputView { text: CANCELLED@, is_error: false },
                            stamp.now@,
                        ),
                    )
                },
                None => resolves(after, request, Seq::empty()),
            }
        },
        (Phase::ExecutingPending { call }, LoopReply::Executed(result)) => resolves(
            after,
            request,
            pair_of(stamp.first, stamp.second, call@, outcome(result), stamp.now@),
        ),
        (Phase::Resolving, LoopReply::Done(_)) => stops(after, request),
        (Phase::Executing { call, queue }, LoopReply::Executed(result)) => {
            &&& after.phase matches Phase::StoringPair { queue: q } && same_queue(q, queue)
            &&& request matches LoopRequest::AppendAll { conversation, messages } && conversation
                == after.conversation && messages.deep_view() == pair_of(
                stamp.first,
                stamp.second,
                call@,
                outcome(result),
                stamp.now@,
            )
        },
        (Phase::StoringPair { queue }, LoopReply::Done(done)) => match done {
            Ok(_) => {
                &&& after.phase matches Phase::Relisting { queue: q } && same_queue(q, queue)
                &&& request matches LoopRequest::List(id) && id == after.conversation
            },
            Err(_) => stops(after, request),
        },
        (Phase::Relisting { queue }, LoopReply::Messages(listed)) => match listed {
            Ok(messages) => {
                &&& after.prompt@ == (PromptView {
                    messages: prompt_messages_of(messages.deep_view()),
                    ..before.prompt@
                })
                &&& dispatches(registry, after, request, queue.calls.deep_view(), queue.confirming)
            },
            Err(_) => after.prompt@ == before.prompt@ && stops(after, request),
        },
        (Phase::OpeningThread { call, queue }, LoopReply::Created(created)) => match created {
            Ok(child) => {
                &&& after.phase matches Phase::SeedingThread { call: c, thread, queue: q } && c@
                    == call@ && thread == child.id && same_queue(q, queue)
                &&& request matches LoopRequest::Append { conversation, message } && conversation
                    == child.id && message@ == call_view(stamp.first, call@, stamp.now@)
            },
            Err(_) => stops(after, request),
        },
        (Phase::SeedingThread { call, thread, queue }, LoopReply::Done(done)) => match done {
            Ok(_) => {
                &&& after.phase matches Phase::EnteringThread { call: c, thread: t, queue: q } && c@
                    == call@ && t == thread && same_queue(q, queue)
                &&& request matches LoopRequest::SetCurrent(id) && id == thread
            },
            Err(_) => stops(after, request),
        },
        (Phase::EnteringThread { call, thread, queue }, LoopReply::Done(done)) => match done {
            Ok(_) => {
                &&& after.phase matches Phase::Asking { thread: t, text, queue: q } && t == thread
                    && text@.len() == 0 && q.calls.deep_view() == queue.calls.deep_view()
                    && q.confirming
                &&& request matches LoopRequest::Complete { prompt, tools } && prompt@
                    == question_view(
                    confirm_text(call@.name, pretty_or_compact(pretty_json(call@.input), call@.input)),
                ) && tools.deep_view() == after.tools.deep_view()
            },
            Err(_) => stops(after, request),
        },
        (Phase::Asking { thread, text, queue }, LoopReply::Event(event)) => match event {
            StreamEvent::Text(piece) => {
                &&& after.phase matches Phase::AskForwarding { thread: t, text: s, queue: q } && t
                    == thread && s@ == text@ + piece@ && same_queue(q, queue)
                &&& request matches LoopRequest::Forward(p) && p@ == piece@
            },
            StreamEvent::ToolCall(_) => {
                &&& after.phase matches Phase::Asking { thread: t, text: s, queue: q } && t == thread
                    && s@ == text@ && same_queue(q, queue)
                &&& request is NextEvent
            },
            StreamEvent::Failed(failure) => {
                &&& after.phase is ReportingError
                &&& request matches LoopRequest::ForwardError(f) && f@ == failure@
            },
            StreamEvent::End => if text@.len() > 0 {
                &&& after.phase matches Phase::StoringQuestion { queue: q } && same_queue(q, queue)
                &&& request matches LoopRequest::Append { conversation, message } && conversation
                    == thread && message@ == assistant_view(stamp.first, text@, stamp.now@)
            } else {
                dispatches(registry, after, request, queue.calls.deep_view(), queue.confirming)
            },
        },
        (Phase::AskForwarding { thread, text, queue }, LoopReply::Delivered(listening)) => {
            if listening {
                &&& after.phase matches Phase::Asking { thread: t, text: s, queue: q } && t == thread
                    && s@ == text@ && same_queue(q, queue)
                &&& request is NextEvent
            } else {
                stops(after, request)
            }
        },
        (Phase::StoringQuestion { queue }, LoopReply::Done(_)) => dispatches(
            registry,
            after,
            request,
            queue.calls.deep_view(),
            queue.confirming,
        ),
        (Phase::ReportingError, LoopReply::Delivered(_)) => stops(after, request),
        _ => false,
    }
}

// ---------------------------------------------------------------------------
// The machine
// ---------------------------------------------------------------------------

/// What stays the same while a loop runs.
struct Fixed {
    conversation: ConversationId,
    prompt: Prompt,
    tools: Vec<ToolDefinition>,
}

impl Fixed {
    /// Whether `after` runs in this frame.
    spec fn keeps(self, after: ToolLoop) -> bool {
        &&& after.conversation == self.conversation
        &&& after.prompt@ == self.prompt@
        &&& after.tools.deep_view() == self.tools.deep_view()
    }

    fn wait(self, phase: Phase) -> (r: ToolLoop)
        ensures
            self.keeps(r),
            r.phase == phase,
    {
        ToolLoop {
            conversation: self.conversation,
            prompt: self.prompt,
            tools: self.tools,
            phase,
        }
    }

    fn stop(self) -> (r: (ToolLoop, LoopRequest))
        ensures
            self.keeps(r.0),
            stops(r.0, r.1),
    {
        (self.wait(Phase::Finished), LoopRequest::Stop)
    }

    fn complete(self) -> (r: (ToolLoop, LoopRequest))
        ensures
            self.keeps(r.0),
            completes(r.0, r.1),
    {
        let prompt = self.prompt.clone();
        let tools = clone_definitions(&self.tools);
        (
            self.wait(Phase::Listening { text: String::new(), calls: Vec::new() }),
            LoopRequest::Complete { prompt, tools },
        )
    }

    fn dispatch<R: ToolRegistry>(self, registry: &R, queue: Queue) -> (r: (ToolLoop, LoopRequest))
        ensures
            self.keeps(r.0),
            dispatches(*registry, r.0, r.1, queue.calls.deep_view(), queue.confirming),
    {
        let Queue { mut calls, confirming } = queue;
        if calls.len() == 0 {
            if confirming {
                self.stop()
            } else {
                self.complete()
            }
        } else {
            let ghost all = calls.deep_view();
            let call = calls.remove(0);
            assert(calls.deep_view() =~= all.drop_first());
            assert(call@ == all[0]);
            let queue = Queue { calls, confirming };
            if same(call.name.as_str(), RESOLVE_TOOL_NAME) {
                let execute = wants_execution(call.input.get_str("action"));
                let conversation = self.conversation;
                (self.wait(Phase::ReadingThread { execute }), LoopRequest::List(conversation))
            } else {
                let policy = match registry.policy(call.name.as_str()) {
                    Some(policy) => policy,
                    None => Policy::Auto,
                };
                match policy {
                    Policy::Auto => {
                        let name = call.name.clone();
                        let input = call.input.clone();
                        (
                            self.wait(Phase::Executing { call, queue }),
                            LoopRequest::Execute { name, input },
                        )
                    },
                    Policy::Confirm => {
                        let conversation = self.conversation;
                        (
                            self.wait(Phase::OpeningThread { call, queue }),
                            LoopRequest::Create(conversation),
                        )
                    },
                }
            }
        }
    }

    fn resolve(self, payload: Vec<Message>) -> (r: (ToolLoop, LoopRequest))
        ensures
            self.keeps(r.0),
            resolves(r.0, r.1, payload.deep_view()),
    {
        let conversation = self.conversation;
        (self.wait(Phase::Resolving), LoopRequest::Resolve { conversation, payload })
    }
}

/// Whether the `action` of a call of the built-in tool asks for the pending
/// call to be run.
pub fn wants_execution(action: Option<String>) -> (r: bool)
    ensures
        r == says_execute(action.deep_view()),
{
    match action {
        Some(action) => same(action.as_str(), "execute"),
        None => false,
    }
}

fn settle(result: Result<ToolOutput, Failure>) -> (r: ToolOutput)
    ensures
        r@ == outcome(result),
{
    match result {
        Ok(output) => output,
        Err(failure) => ToolOutput { text: failure.message, is_error: true },
    }
}

impl ToolLoop {
    /// Starts the answer to a prompt: the model may call the given tools and
    /// the built-in one.
    pub fn start(
        conversation: ConversationId,
        prompt: Prompt,
        definitions: &Vec<ToolDefinition>,
    ) -> (r: (ToolLoop, LoopRequest))
        ensures
            r.0.conversation == conversation,
            r.0.prompt@ == prompt@,
            r.0.tools.deep_view() == definitions.deep_view().push(resolve_definition()),
            completes(r.0, r.1),
    {
        let tools = tools_with_resolve_sentinel(definitions);
        Fixed { conversation, prompt, tools }.complete()
    }

    /// Takes the reply to what the loop asked for, and asks for the next
    /// thing.
    pub fn step<R: ToolRegistry>(self, reply: LoopReply, registry: &R, stamp: Stamp) -> (r: (
        ToolLoop,
        LoopRequest,
    ))
        requires
            expects(self.phase, reply),
        ensures
            loop_step(*registry, self, reply, stamp, r.0, r.1),
    {
        let ToolLoop { conversation, prompt, tools, phase } = self;
        let fixed = Fixed { conversation, prompt, tools };
        match (phase, reply) {
            (Phase::Listening { text, calls }, LoopReply::Event(event)) => match event {
                StreamEvent::Text(piece) => {
                    let mut text = text;
                    text.append(piece.as_str());
                    (fixed.wait(Phase::Forwarding { text, calls }), LoopRequest::Forward(piece))
                },
                StreamEvent::ToolCall(call) => {
                    let mut calls = calls;
                    let ghost seen = calls.deep_view();
                    let ghost last = call@;
                    calls.push(call);
                    assert(calls.deep_view() =~= seen.push(last));
                    (fixed.wait(Phase::Listening { text, calls }), LoopRequest::NextEvent)
                },
                StreamEvent::Failed(failure) => (
                    fixed.wait(Phase::ReportingError),
                    LoopRequest::ForwardError(failure),
                ),
                StreamEvent::End => {
                    if !text.as_str().is_empty() {
                        let message = assistant_message(stamp.first, text, stamp.now);
                        (
                            fixed.wait(Phase::Persisting { calls }),
                            LoopRequest::Append { conversation, message },
                        )
                    } else if calls.len() == 0 {
                        fixed.stop()
                    } else {
                        fixed.dispatch(registry, Queue { calls, confirming: false })
                    }
                },
            },
            (Phase::Forwarding { text, calls }, LoopReply::Delivered(listening)) => {
                if listening {
                    (fixed.wait(Phase::Listening { text, calls }), LoopRequest::NextEvent)
                } else {
                    fixed.stop()
                }
            },
            (Phase::Persisting { calls }, LoopReply::Done(done)) => match done {
                Ok(_) => {
                    if calls.len() == 0 {
                        fixed.stop()
                    } else {
                        fixed.dispatch(registry, Queue { calls, confirming: false })
                    }
                },
                Err(_) => fixed.stop(),
            },
            (Phase::ReadingThread { execute }, LoopReply::Messages(listed)) => {
                let pending = match listed {
                    Ok(messages) => pending_call_from_thread(&messages),
                    Err(_) => None,
                };
                match pending {
                    Some(call) => {
                        if execute {
                            let name = call.name.clone();
                            let input = call.input.clone();
                            (
                                fixed.wait(Phase::ExecutingPending { call }),
                                LoopRequest::Execute { name, input },
                            )
                        } else {
                            let cancelled = ToolOutput {
                                text: CANCELLED.to_owned(),
                                is_error: false,
                            };
                            fixed.resolve(
                                tool_pair_messages(
                                    stamp.first,
                                    stamp.second,
                                    &call,
                                    &cancelled,
                                    stamp.now,
                                ),
                            )
                        }
                    },
                    None => {
                        let payload: Vec<Message> = Vec::new();
                        assert(payload.deep_view() =~= Seq::<MessageView>::empty());
                        fixed.resolve(payload)
                    },
                }
            },
            (Phase::ExecutingPending { call }, LoopReply::Executed(result)) => {
                let output = settle(result);
                fixed.resolve(
                    tool_pair_messages(stamp.first, stamp.second, &call, &output, stamp.now),
                )
            },
            (Phase::Resolving, LoopReply::Done(_)) => fixed.stop(),
            (Phase::Executing { call, queue }, LoopReply::Executed(result)) => {
                let output = settle(result);
                let messages = tool_pair_messages(
                    stamp.first,
                    stamp.second,
                    &call,
                    &output,
                    stamp.now,
                );
                (
                    fixed.wait(Phase::StoringPair { queue }),
                    LoopRequest::AppendAll { conversation, messages },
                )
            },
            (Phase::StoringPair { queue }, LoopReply::Done(done)) => match done {
                Ok(_) => (fixed.wait(Phase::Relisting { queue }), LoopRequest::List(conversation)),
                Err(_) => fixed.stop(),
            },
            (Phase::Relisting { queue }, LoopReply::Messages(listed)) => match listed {
                Ok(messages) => {
                    let Fixed { conversation, prompt, tools } = fixed;
                    let Prompt { summary, recalled, messages: _ } = prompt;
                    let prompt = Prompt { summary, recalled, messages: prompt_messages(&messages) };
                    Fixed { conversation, prompt, tools }.dispatch(registry, queue)
                },
                Err(_) => fixed.stop(),
            },
            (Phase::OpeningThread { call, queue }, LoopReply::Created(created)) => match created {
                Ok(child) => {
                    let message = call_message(stamp.first, &call, stamp.now);
                    (
                        fixed.wait(Phase::SeedingThread { call, thread: child.id, queue }),
                        LoopRequest::Append { conversation: child.id, message },
                    )
                },
                Err(_) => fixed.stop(),
            },
            (Phase::SeedingThread { call, thread, queue }, LoopReply::Done(done)) => match done {
                Ok(_) => (
                    fixed.wait(Phase::EnteringThread { call, thread, queue }),
                    LoopRequest::SetCurrent(thread),
                ),
                Err(_) => fixed.stop(),
            },
            (Phase::EnteringThread { call, thread, queue }, LoopReply::Done(done)) => match done {
                Ok(_) => {
                    let prompt = build_confirm_prompt(&call);
                    let tools = clone_definitions(&fixed.tools);
                    let queue = Queue { calls: queue.calls, confirming: true };
                    (
                        fixed.wait(Phase::Asking { thread, text: String::new(), queue }),
                        LoopRequest::Complete { prompt, tools },
                    )
                },
                Err(_) => fixed.stop(),
            },
            (Phase::Asking { thread, text, queue }, LoopReply::Event(event)) => match event {
                StreamEvent::Text(piece) => {
                    let mut text = text;
                    text.append(piece.as_str());
                    (
                        fixed.wait(Phase::AskForwarding { thread, text, queue }),
                        LoopRequest::Forward(piece),
                    )
                },
                StreamEvent::ToolCall(_) => (
                    fixed.wait(Phase::Asking { thread, text, queue }),
                    LoopRequest::NextEvent,
                ),
                StreamEvent::Failed(failure) => (
                    fixed.wait(Phase::ReportingError),
                    LoopRequest::ForwardError(failure),
                ),
                StreamEvent::End => {
                    if !text.as_str().is_empty() {
                        let message = assistant_message(stamp.first, text, stamp.now);
                        (
                            fixed.wait(Phase::StoringQuestion { queue }),
                            LoopRequest::Append { conversation: thread, message },
                        )
                    } else {
                        fixed.dispatch(registry, queue)
                    }
                },
            },
            (Phase::AskForwarding { thread, text, queue }, LoopReply::Delivered(listening)) => {
                if listening {
                    (fixed.wait(Phase::Asking { thread, text, queue }), LoopRequest::NextEvent)
                } else {
                    fixed.stop()
                }
            },
            (Phase::StoringQuestion { queue }, LoopReply::Done(_)) => fixed.dispatch(
                registry,
                queue,
            ),
            (Phase::ReportingError, LoopReply::Delivered(_)) => fixed.stop(),
            (phase, _) => (fixed.wait(phase), LoopRequest::Stop),
        }
    }
}

} // verus!
