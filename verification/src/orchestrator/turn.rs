//! One turn of the user, up to the prompt for the answer: a state machine
//! that asks for one thing at a time and is handed the reply.

use vstd::prelude::*;
use vstd::string::*;

use crate::failure::Failure;
use crate::language_model::Prompt;
use crate::memory_index::{RelatedConversation, Score};
use crate::models::conversation::{Conversation, ConversationId};
use crate::models::message::{Content, Message, MessageId, MessageView, Role};
use crate::models::summary::{Summary, SummaryView};
use crate::orchestrator::decisions::{
    ContextView, RECALL_K, accepted, assemble_context, build_prompt, carried, detect_drift,
    discover_recall, drift_of, drift_probe, overflow_prompt, owned_messages, owned_of,
    prior_messages, prompt_message, prompt_of, recalled_of, referenced_messages,
    should_inject_temporal_update, temporal_message, temporal_view, time_is_due, would_overflow,
};
use crate::summarizer::{SummaryRequest, SummaryRequestView};
use crate::time::Timestamp;
use crate::topic_detector::TopicShift;

verus! {

/// Fresh identities and the time, for what a step writes.
#[derive(Debug, Clone, Copy)]
pub struct Stamp {
    pub first: MessageId,
    pub second: MessageId,
    pub now: Timestamp,
}

impl Stamp {
    /// Two fresh message identities and the current time.
    pub fn take() -> (r: Stamp)
        ensures
            crate::identity::version_of(r.first.0) == 7,
            crate::identity::variant_of(r.first.0) == 2,
            crate::identity::version_of(r.second.0) == 7,
            crate::identity::variant_of(r.second.0) == 2,
    {
        let first = MessageId::new();
        let second = MessageId::new();
        Stamp { first, second, now: Timestamp::now() }
    }
}

/// What a turn asks for.
#[derive(Debug)]
pub enum Request {
    /// The conversation of this identity.
    Get(ConversationId),
    /// All messages of a conversation, owned and referenced, in order.
    List(ConversationId),
    /// Whether the last of these messages moves to a new topic.
    DetectShift(Vec<Message>),
    /// The conversations that one recalls.
    Recalled(ConversationId),
    /// How much of the context window a prompt leaves.
    RemainingCapacity(Prompt),
    /// A summary of these messages.
    Summarize { messages: Vec<Message>, request: SummaryRequest },
    /// A summary of these messages and, at the same time, the up to `k`
    /// conversations most similar to `topic`, without `exclude`.
    SummarizeAndSearch {
        messages: Vec<Message>,
        request: SummaryRequest,
        topic: String,
        k: usize,
        exclude: ConversationId,
    },
    /// A new conversation under this parent.
    Create(ConversationId),
    UpdateSummary { conversation: ConversationId, summary: Summary },
    /// Messages that a conversation shares with its parent.
    Reference { conversation: ConversationId, shared: Vec<MessageId> },
    SetCurrent(ConversationId),
    /// An embedding of the summary in the memory index. The turn does not
    /// wait for it, nor for its failure.
    IndexSummary { conversation: ConversationId, text: String },
    RecordRecall { from: ConversationId, to: ConversationId, score: Score },
    Append { conversation: ConversationId, message: Message },
    /// The turn is recorded: an answer to this prompt.
    Generate { conversation: ConversationId, prompt: Prompt },
    /// The turn is over.
    Fail(Failure),
}

/// The reply to a request.
#[derive(Debug)]
pub enum Reply {
    Conversation(Result<Option<Conversation>, Failure>),
    Messages(Result<Vec<Message>, Failure>),
    Shift(Result<Option<TopicShift>, Failure>),
    Recalled(Result<Vec<ConversationId>, Failure>),
    Capacity(usize),
    Summary(Result<String, Failure>),
    SummaryAndSearch {
        summary: Result<String, Failure>,
        related: Result<Vec<RelatedConversation>, Failure>,
    },
    Created(Result<Conversation, Failure>),
    Done(Result<(), Failure>),
}

/// What the owned messages of a conversation are wanted for.
#[derive(Debug, Clone, Copy, PartialEq, Eq, Structural)]
pub enum OwnedGoal {
    /// To see whether the incoming message changes the topic.
    Drift,
    /// To see whether the model is to be told the time.
    Time,
}

/// What the context of a conversation is wanted for.
#[derive(Debug)]
pub enum ContextGoal {
    /// To see whether the incoming message still fits. Holds the owned
    /// messages.
    Overflow(Vec<Message>),
    /// To generate the answer.
    Generation,
}

/// What closing a conversation has settled.
#[derive(Debug)]
pub struct Split {
    pub request: SummaryRequest,
    pub content: String,
    pub referenced: Vec<MessageId>,
    pub candidate: Option<RelatedConversation>,
}

/// A context that is being read.
#[derive(Debug)]
pub struct Reading {
    pub goal: ContextGoal,
    pub conversation: Conversation,
    pub messages: Vec<Message>,
    pub ids: Vec<ConversationId>,
    pub sources: Vec<Option<Conversation>>,
}

/// What a turn is waiting for.
#[derive(Debug)]
pub enum Stage {
    OwnedGet(OwnedGoal),
    OwnedList(OwnedGoal, Conversation),
    Detecting(Vec<Message>),
    ContextGet(ContextGoal),
    ContextList(ContextGoal, Conversation),
    ContextRecalled(ContextGoal, Conversation, Vec<Message>),
    ContextSource(Reading),
    Measuring(Vec<Message>),
    Summarizing { owned: Vec<Message>, split: usize, request: SummaryRequest },
    Creating(Split),
    Summing(Split),
    Referencing(Split),
    Switching(Split),
    Indexing(Split),
    Linking,
    AppendingTime,
    AppendingUser,
    Finished,
}

/// A turn in progress.
#[derive(Debug)]
pub struct Turn {
    /// The conversation that the message will be recorded in, as far as is
    /// known.
    pub conversation: ConversationId,
    /// The incoming message.
    pub user: Message,
    pub stage: Stage,
}

/// The orchestrator's settings.
#[derive(Debug, Clone, Copy)]
pub struct Brain {
    /// A conversation is compacted when a prompt would leave less than this.
    pub compaction_threshold: usize,
    /// A conversation is recalled when its similarity is at least this.
    pub recall_threshold: Score,
}

// ---------------------------------------------------------------------------
// Which reply answers which request
// ---------------------------------------------------------------------------

/// Whether a reply is of the kind that a request asks for.
pub open spec fn answers(request: Request, reply: Reply) -> bool {
    match request {
        Request::Get(_) => reply is Conversation,
        Request::List(_) => reply is Messages,
        Request::DetectShift(_) => reply is Shift,
        Request::Recalled(_) => reply is Recalled,
        Request::RemainingCapacity(_) => reply is Capacity,
        Request::Summarize { .. } => reply is Summary,
        Request::SummarizeAndSearch { .. } => reply is SummaryAndSearch,
        Request::Create(_) => reply is Created,
        Request::UpdateSummary { .. } => reply is Done,
        Request::Reference { .. } => reply is Done,
        Request::SetCurrent(_) => reply is Done,
        Request::IndexSummary { .. } => reply is Done,
        Request::RecordRecall { .. } => reply is Done,
        Request::Append { .. } => reply is Done,
        Request::Generate { .. } => false,
        Request::Fail(_) => false,
    }
}

/// Whether a stage can take a reply.
pub open spec fn expects(stage: Stage, reply: Reply) -> bool {
    match stage {
        Stage::OwnedGet(_) => reply is Conversation,
        Stage::OwnedList(_, _) => reply is Messages,
        Stage::Detecting(_) => reply is Shift,
        Stage::ContextGet(_) => reply is Conversation,
        Stage::ContextList(_, _) => reply is Messages,
        Stage::ContextRecalled(_, _, _) => reply is Recalled,
        Stage::ContextSource(reading) => reply is Conversation && reading.sources@.len()
            < reading.ids@.len(),
        Stage::Measuring(_) => reply is Capacity,
        Stage::Summarizing { owned, split, request } => split <= owned@.len() && match request {
            SummaryRequest::TopicShift { .. } => reply is SummaryAndSearch,
            SummaryRequest::Compaction => reply is Summary,
        },
        Stage::Creating(_) => reply is Created,
        Stage::Summing(_) => reply is Done,
        Stage::Referencing(_) => reply is Done,
        Stage::Switching(_) => reply is Done,
        Stage::Indexing(_) => reply is Done,
        Stage::Linking => reply is Done,
        Stage::AppendingTime => reply is Done,
        Stage::AppendingUser => reply is Done,
        Stage::Finished => false,
    }
}

// ---------------------------------------------------------------------------
// What a step does
// ---------------------------------------------------------------------------

pub open spec fn fails(after: Turn, request: Request, message: Seq<char>) -> bool {
    &&& after.stage is Finished
    &&& request matches Request::Fail(failure) && failure@ == message
}

/// The owned messages of the turn's conversation are asked for.
pub open spec fn reads_owned(after: Turn, request: Request, goal: OwnedGoal) -> bool {
    &&& after.stage matches Stage::OwnedGet(g) && g == goal
    &&& request matches Request::Get(id) && id == after.conversation
}

pub open spec fn same_goal(a: ContextGoal, b: ContextGoal) -> bool {
    match (a, b) {
        (ContextGoal::Overflow(x), ContextGoal::Overflow(y)) => x.deep_view() == y.deep_view(),
        (ContextGoal::Generation, ContextGoal::Generation) => true,
        _ => false,
    }
}

pub open spec fn same_split(a: Split, b: Split) -> bool {
    &&& a.request@ == b.request@
    &&& a.content@ == b.content@
    &&& a.referenced@ == b.referenced@
    &&& a.candidate == b.candidate
}

/// The context of the turn's conversation is asked for.
pub open spec fn reads_context(after: Turn, request: Request, goal: ContextGoal) -> bool {
    &&& after.stage matches Stage::ContextGet(g) && same_goal(g, goal)
    &&& request matches Request::Get(id) && id == after.conversation
}

/// The context that a finished reading gives.
pub open spec fn context_read(reading: Reading) -> ContextView {
    ContextView {
        summary: reading.conversation@.summary,
        recalled: recalled_of(reading.sources.deep_view()),
        messages: reading.messages.deep_view(),
    }
}

/// The prompt that is measured: the context with the incoming message.
pub open spec fn measured_prompt(context: ContextView, user: MessageView)
    -> crate::language_model::PromptView {
    crate::language_model::PromptView {
        messages: prompt_of(context).messages.push(prompt_message(user)),
        ..prompt_of(context)
    }
}

/// The reading goes on with the next recalled conversation, or is put to its
/// use when there is none left.
pub open spec fn reads_on(after: Turn, request: Request, reading: Reading) -> bool {
    if reading.sources@.len() < reading.ids@.len() {
        &&& after.stage matches Stage::ContextSource(r)
        &&& same_goal(r.goal, reading.goal)
        &&& r.conversation@ == reading.conversation@
        &&& r.messages.deep_view() == reading.messages.deep_view()
        &&& r.ids@ == reading.ids@
        &&& r.sources.deep_view() == reading.sources.deep_view()
        &&& request matches Request::Get(id) && id == reading.ids@[reading.sources@.len() as int]
    } else {
        match reading.goal {
            ContextGoal::Overflow(owned) => {
                &&& after.stage matches Stage::Measuring(o) && o.deep_view() == owned.deep_view()
                &&& request matches Request::RemainingCapacity(prompt) && prompt@
                    == measured_prompt(context_read(reading), after.user@)
            },
            ContextGoal::Generation => {
                &&& after.stage is Finished
                &&& request matches Request::Generate { conversation, prompt } && conversation
                    == after.conversation && prompt@ == prompt_of(context_read(reading))
            },
        }
    }
}

/// The prior messages are summarised; on a topic shift, a conversation to
/// recall is looked for at the same time.
pub open spec fn closes(
    after: Turn,
    request: Request,
    owned: Seq<MessageView>,
    split: nat,
    reason: SummaryRequestView,
) -> bool {
    &&& after.stage matches Stage::Summarizing { owned: o, split: s, request: r } && o.deep_view()
        == owned && s == split && r@ == reason
    &&& match reason {
        SummaryRequestView::TopicShift { new_topic } => {
            &&& request matches Request::SummarizeAndSearch { messages, request, topic, k, exclude }
            &&& messages.deep_view() == owned.take(split as int)
            &&& request@ == reason
            &&& topic@ == new_topic
            &&& k == RECALL_K
            &&& exclude == after.conversation
        },
        SummaryRequestView::Compaction => {
            &&& request matches Request::Summarize { messages, request }
            &&& messages.deep_view() == owned.take(split as int)
            &&& request@ == reason
        },
    }
}

/// The message is recorded, behind a note of the time where one is due.
pub open spec fn records(
    after: Turn,
    request: Request,
    owned: Seq<MessageView>,
    stamp: Stamp,
) -> bool {
    if time_is_due(owned, stamp.now@) {
        &&& after.stage is AppendingTime
        &&& request matches Request::Append { conversation, message } && conversation
            == after.conversation && message@ == temporal_view(stamp.first, stamp.now@)
    } else {
        records_user(after, request)
    }
}

pub open spec fn records_user(after: Turn, request: Request) -> bool {
    &&& after.stage is AppendingUser
    &&& request matches Request::Append { conversation, message } && conversation
        == after.conversation && message@ == after.user@
}

/// What a summary reply settles: the child's summary, the messages that it
/// shares, and the conversation that it recalls. A failed search recalls
/// nothing.
pub open spec fn settles(
    brain: Brain,
    split: Split,
    owned: Seq<MessageView>,
    at: nat,
    reason: SummaryRequestView,
    content: Seq<char>,
    related: Option<Seq<RelatedConversation>>,
) -> bool {
    &&& split.request@ == reason
    &&& split.content@ == content
    &&& split.referenced@ == carried(owned, at, reason)
    &&& split.candidate == match related {
        Some(results) => accepted(results, brain.recall_threshold),
        None => None,
    }
}

/// The child's recall edge is recorded, or the turn goes on in the child.
pub open spec fn links(after: Turn, request: Request, split: Split) -> bool {
    match split.candidate {
        Some(candidate) => {
            &&& after.stage is Linking
            &&& request matches Request::RecordRecall { from, to, score } && from
                == after.conversation && to == candidate.id && score == candidate.score
        },
        None => reads_owned(after, request, OwnedGoal::Time),
    }
}

/// One step of a turn: from what it was waiting for and the reply, to what it
/// waits for next and what it asks.
pub open spec fn turn_step(
    brain: Brain,
    before: Turn,
    reply: Reply,
    stamp: Stamp,
    after: Turn,
    request: Request,
) -> bool {
    &&& after.user@ == before.user@
    &&& !(before.stage is Creating) ==> after.conversation == before.conversation
    &&& match (before.stage, reply) {
        (Stage::OwnedGet(goal), Reply::Conversation(found)) => match found {
            Ok(Some(conversation)) => {
                &&& after.stage matches Stage::OwnedList(g, c) && g == goal && c@ == conversation@
                &&& request matches Request::List(id) && id == after.conversation
            },
            Ok(None) => fails(after, request, "conversation not found"@),
            Err(failure) => fails(after, request, failure@),
        },
        (Stage::OwnedList(goal, conversation), Reply::Messages(listed)) => match listed {
            Ok(messages) => {
                let owned = owned_of(conversation@.items, messages.deep_view());
                match goal {
                    OwnedGoal::Drift => {
                        &&& after.stage matches Stage::Detecting(o) && o.deep_view() == owned
                        &&& request matches Request::DetectShift(probe) && probe.deep_view()
                            == owned.push(before.user@)
                    },
                    OwnedGoal::Time => records(after, request, owned, stamp),
                }
            },
            Err(failure) => fails(after, request, failure@),
        },
        (Stage::Detecting(owned), Reply::Shift(detected)) => match detected {
            Ok(shift) => match drift_of(owned.deep_view(), shift.deep_view()) {
                Some((split, new_topic)) => closes(
                    after,
                    request,
                    owned.deep_view(),
                    split,
                    SummaryRequestView::TopicShift { new_topic },
                ),
                None => reads_context(after, request, ContextGoal::Overflow(owned)),
            },
            Err(failure) => fails(after, request, failure@),
        },
        (Stage::ContextGet(goal), Reply::Conversation(found)) => match found {
            Ok(Some(conversation)) => {
                &&& after.stage matches Stage::ContextList(g, c) && same_goal(g, goal) && c@
                    == conversation@
                &&& request matches Request::List(id) && id == after.conversation
            },
            Ok(None) => fails(after, request, "conversation not found"@),
            Err(failure) => fails(after, request, failure@),
        },
        (Stage::ContextList(goal, conversation), Reply::Messages(listed)) => match listed {
            Ok(messages) => {
                &&& after.stage matches Stage::ContextRecalled(g, c, m) && same_goal(g, goal) && c@
                    == conversation@ && m.deep_view() == messages.deep_view()
                &&& request matches Request::Recalled(id) && id == after.conversation
            },
            Err(failure) => fails(after, request, failure@),
        },
        (Stage::ContextRecalled(goal, conversation, messages), Reply::Recalled(found)) => match found {
            Ok(ids) => exists|reading: Reading| #[trigger]
                reads_on(after, request, reading) && same_goal(reading.goal, goal)
                    && reading.conversation@ == conversation@ && reading.messages.deep_view()
                    == messages.deep_view() && reading.ids@ == ids@ && reading.sources@.len() == 0,
            Err(failure) => fails(after, request, failure@),
        },
        (Stage::ContextSource(old_reading), Reply::Conversation(found)) => match found {
            Ok(source) => exists|reading: Reading| #[trigger]
                reads_on(after, request, reading) && same_goal(reading.goal, old_reading.goal)
                    && reading.conversation@ == old_reading.conversation@
                    && reading.messages.deep_view() == old_reading.messages.deep_view()
                    && reading.ids@ == old_reading.ids@ && reading.sources.deep_view()
                    == old_reading.sources.deep_view().push(source.deep_view()),
            Err(failure) => fails(after, request, failure@),
        },
        (Stage::Measuring(owned), Reply::Capacity(remaining)) => if remaining
            < brain.compaction_threshold {
            closes(
                after,
                request,
                owned.deep_view(),
                owned@.len(),
                SummaryRequestView::Compaction,
            )
        } else {
            reads_owned(after, request, OwnedGoal::Time)
        },
        (
            Stage::Summarizing { owned, split, request: reason },
            Reply::Summary(summarized),
        ) => match summarized {
            Ok(content) => {
                &&& after.stage matches Stage::Creating(s) && settles(
                    brain,
                    s,
                    owned.deep_view(),
                    split as nat,
                    reason@,
                    content@,
                    None,
                )
                &&& request matches Request::Create(parent) && parent == after.conversation
            },
            Err(failure) => fails(after, request, failure@),
        },
        (
            Stage::Summarizing { owned, split, request: reason },
            Reply::SummaryAndSearch { summary, related },
        ) => match summary {
            Ok(content) => {
                &&& after.stage matches Stage::Creating(s) && settles(
                    brain,
                    s,
                    owned.deep_view(),
                    split as nat,
                    reason@,
                    content@,
                    match related {
                        Ok(results) => Some(results@),
                        Err(_) => None,
                    },
                )
                &&& request matches Request::Create(parent) && parent == after.conversation
            },
            Err(failure) => fails(after, request, failure@),
        },
        (Stage::Creating(split), Reply::Created(created)) => match created {
            Ok(child) => {
                &&& after.conversation == child.id
                &&& after.stage matches Stage::Summing(s) && same_split(s, split)
                &&& request matches Request::UpdateSummary { conversation, summary } && conversation
                    == child.id && summary@ == (SummaryView {
                    content: split.content@,
                    created_at: stamp.now@,
                })
            },
            Err(failure) => after.conversation == before.conversation && fails(
                after,
                request,
                failure@,
            ),
        },
        (Stage::Summing(split), Reply::Done(done)) => match done {
            Ok(_) => {
                &&& after.stage matches Stage::Referencing(s) && same_split(s, split)
                &&& request matches Request::Reference { conversation, shared } && conversation
                    == after.conversation && shared@ == split.referenced@
            },
            Err(failure) => fails(after, request, failure@),
        },
        (Stage::Referencing(split), Reply::Done(done)) => match done {
            Ok(_) => {
                &&& after.stage matches Stage::Switching(s) && same_split(s, split)
                &&& request matches Request::SetCurrent(id) && id == after.conversation
            },
            Err(failure) => fails(after, request, failure@),
        },
        (Stage::Switching(split), Reply::Done(done)) => match done {
            Ok(_) => {
                &&& after.stage matches Stage::Indexing(s) && same_split(s, split)
                &&& request matches Request::IndexSummary { conversation, text } && conversation
                    == after.conversation && text@ == split.content@
            },
            Err(failure) => fails(after, request, failure@),
        },
        (Stage::Indexing(split), Reply::Done(_)) => links(after, request, split),
        (Stage::Linking, Reply::Done(_)) => reads_owned(after, request, OwnedGoal::Time),
        (Stage::AppendingTime, Reply::Done(done)) => match done {
            Ok(_) => records_user(after, request),
            Err(failure) => fails(after, request, failure@),
        },
        (Stage::AppendingUser, Reply::Done(done)) => match done {
            Ok(_) => reads_context(after, request, ContextGoal::Generation),
            Err(failure) => fails(after, request, failure@),
        },
        _ => false,
    }
}

// ---------------------------------------------------------------------------
// The machine
// ---------------------------------------------------------------------------

fn stop(conversation: ConversationId, user: Message, failure: Failure) -> (r: (Turn, Request))
    ensures
        r.0.conversation == conversation,
        r.0.user@ == user@,
        fails(r.0, r.1, failure@),
{
    (Turn { conversation, user, stage: Stage::Finished }, Request::Fail(failure))
}

fn not_found() -> (r: Failure)
    ensures
        r@ == "conversation not found"@,
{
    Failure::new("conversation not found")
}

fn read_owned(conversation: ConversationId, user: Message, goal: OwnedGoal) -> (r: (Turn, Request))
    ensures
        r.0.conversation == conversation,
        r.0.user@ == user@,
        reads_owned(r.0, r.1, goal),
{
    (Turn { conversation, user, stage: Stage::OwnedGet(goal) }, Request::Get(conversation))
}

fn read_context(conversation: ConversationId, user: Message, goal: ContextGoal) -> (r: (
    Turn,
    Request,
))
    ensures
        r.0.conversation == conversation,
        r.0.user@ == user@,
        reads_context(r.0, r.1, goal),
{
    (Turn { conversation, user, stage: Stage::ContextGet(goal) }, Request::Get(conversation))
}

fn read_on(conversation: ConversationId, user: Message, reading: Reading) -> (r: (Turn, Request))
    ensures
        r.0.conversation == conversation,
        r.0.user@ == user@,
        reads_on(r.0, r.1, reading),
{
    if reading.sources.len() < reading.ids.len() {
        let id = reading.ids[reading.sources.len()];
        (Turn { conversation, user, stage: Stage::ContextSource(reading) }, Request::Get(id))
    } else {
        let context = assemble_context(&reading.conversation, reading.messages, reading.sources);
        match reading.goal {
            ContextGoal::Overflow(owned) => {
                let prompt = overflow_prompt(&context, &user);
                (
                    Turn { conversation, user, stage: Stage::Measuring(owned) },
                    Request::RemainingCapacity(prompt),
                )
            },
            ContextGoal::Generation => {
                let prompt = build_prompt(&context);
                (
                    Turn { conversation, user, stage: Stage::Finished },
                    Request::Generate { conversation, prompt },
                )
            },
        }
    }
}

fn close(
    conversation: ConversationId,
    user: Message,
    owned: Vec<Message>,
    split: usize,
    reason: SummaryRequest,
) -> (r: (Turn, Request))
    requires
        split <= owned@.len(),
    ensures
        r.0.conversation == conversation,
        r.0.user@ == user@,
        closes(r.0, r.1, owned.deep_view(), split as nat, reason@),
{
    let messages = prior_messages(&owned, split);
    let request = match &reason {
        SummaryRequest::TopicShift { new_topic } => Request::SummarizeAndSearch {
            messages,
            request: reason.clone(),
            topic: new_topic.clone(),
            k: RECALL_K,
            exclude: conversation,
        },
        SummaryRequest::Compaction => Request::Summarize { messages, request: reason.clone() },
    };
    (
        Turn { conversation, user, stage: Stage::Summarizing { owned, split, request: reason } },
        request,
    )
}

fn record_user(conversation: ConversationId, user: Message) -> (r: (Turn, Request))
    ensures
        r.0.conversation == conversation,
        r.0.user@ == user@,
        records_user(r.0, r.1),
{
    let message = user.clone();
    (
        Turn { conversation, user, stage: Stage::AppendingUser },
        Request::Append { conversation, message },
    )
}

fn record(conversation: ConversationId, user: Message, owned: &Vec<Message>, stamp: Stamp) -> (r: (
    Turn,
    Request,
))
    ensures
        r.0.conversation == conversation,
        r.0.user@ == user@,
        records(r.0, r.1, owned.deep_view(), stamp),
{
    if should_inject_temporal_update(owned, stamp.now) {
        let message = temporal_message(stamp.first, stamp.now);
        (
            Turn { conversation, user, stage: Stage::AppendingTime },
            Request::Append { conversation, message },
        )
    } else {
        record_user(conversation, user)
    }
}

fn link(conversation: ConversationId, user: Message, split: Split) -> (r: (Turn, Request))
    ensures
        r.0.conversation == conversation,
        r.0.user@ == user@,
        links(r.0, r.1, split),
{
    match split.candidate {
        Some(candidate) => (
            Turn { conversation, user, stage: Stage::Linking },
            Request::RecordRecall {
                from: conversation,
                to: candidate.id,
                score: candidate.score,
            },
        ),
        None => read_owned(conversation, user, OwnedGoal::Time),
    }
}

impl Brain {
    pub fn new(compaction_threshold: usize, recall_threshold: Score) -> (r: Brain)
        ensures
            r.compaction_threshold == compaction_threshold,
            r.recall_threshold == recall_threshold,
    {
        Brain { compaction_threshold, recall_threshold }
    }

    /// Starts a turn: a message of the user in the current conversation.
    pub fn say(&self, current: ConversationId, content: Vec<Content>, stamp: Stamp) -> (r: (
        Turn,
        Request,
    ))
        ensures
            r.0.conversation == current,
            r.0.user@ == (MessageView {
                id: stamp.first,
                role: Role::User,
                content: content.deep_view(),
                timestamp: stamp.now@,
            }),
            reads_owned(r.0, r.1, OwnedGoal::Drift),
    {
        let user = Message { id: stamp.first, role: Role::User, content, timestamp: stamp.now };
        read_owned(current, user, OwnedGoal::Drift)
    }

    /// What closing a conversation settles once its summary is there.
    fn settle(
        &self,
        owned: &Vec<Message>,
        split: usize,
        reason: SummaryRequest,
        content: String,
        related: Option<Vec<RelatedConversation>>,
    ) -> (r: Split)
        requires
            split <= owned@.len(),
        ensures
            settles(
                *self,
                r,
                owned.deep_view(),
                split as nat,
                reason@,
                content@,
                match related {
                    Some(results) => Some(results@),
                    None => None,
                },
            ),
    {
        let referenced = referenced_messages(owned, split, &reason);
        let candidate = match related {
            Some(results) => discover_recall(&results, self.recall_threshold),
            None => None,
        };
        Split { request: reason, content, referenced, candidate }
    }

    /// Takes the reply to what the turn asked for, and asks for the next
    /// thing.
    pub fn step(&self, turn: Turn, reply: Reply, stamp: Stamp) -> (r: (Turn, Request))
        requires
            expects(turn.stage, reply),
        ensures
            turn_step(*self, turn, reply, stamp, r.0, r.1),
    {
        let Turn { conversation, user, stage } = turn;
        match (stage, reply) {
            (Stage::OwnedGet(goal), Reply::Conversation(found)) => match found {
                Ok(Some(read)) => (
                    Turn { conversation, user, stage: Stage::OwnedList(goal, read) },
                    Request::List(conversation),
                ),
                Ok(None) => stop(conversation, user, not_found()),
                Err(failure) => stop(conversation, user, failure),
            },
            (Stage::OwnedList(goal, read), Reply::Messages(listed)) => match listed {
                Ok(messages) => {
                    let owned = owned_messages(&read, &messages);
                    match goal {
                        OwnedGoal::Drift => {
                            let probe = drift_probe(&owned, &user);
                            (
                                Turn { conversation, user, stage: Stage::Detecting(owned) },
                                Request::DetectShift(probe),
                            )
                        },
                        OwnedGoal::Time => record(conversation, user, &owned, stamp),
                    }
                },
                Err(failure) => stop(conversation, user, failure),
            },
            (Stage::Detecting(owned), Reply::Shift(detected)) => match detected {
                Ok(shift) => match detect_drift(&owned, shift) {
                    Some((split, new_topic)) => close(
                        conversation,
                        user,
                        owned,
                        split,
                        SummaryRequest::TopicShift { new_topic },
                    ),
                    None => read_context(conversation, user, ContextGoal::Overflow(owned)),
                },
                Err(failure) => stop(conversation, user, failure),
            },
            (Stage::ContextGet(goal), Reply::Conversation(found)) => match found {
                Ok(Some(read)) => (
                    Turn { conversation, user, stage: Stage::ContextList(goal, read) },
                    Request::List(conversation),
                ),
                Ok(None) => stop(conversation, user, not_found()),
                Err(failure) => stop(conversation, user, failure),
            },
            (Stage::ContextList(goal, read), Reply::Messages(listed)) => match listed {
                Ok(messages) => (
                    Turn {
                        conversation,
                        user,
                        stage: Stage::ContextRecalled(goal, read, messages),
                    },
                    Request::Recalled(conversation),
                ),
                Err(failure) => stop(conversation, user, failure),
            },
            (Stage::ContextRecalled(goal, read, messages), Reply::Recalled(found)) => match found {
                Ok(ids) => read_on(
                    conversation,
                    user,
                    Reading { goal, conversation: read, messages, ids, sources: Vec::new() },
                ),
                Err(failure) => stop(conversation, user, failure),
            },
            (Stage::ContextSource(reading), Reply::Conversation(found)) => match found {
                Ok(source) => {
                    let mut reading = reading;
                    let ghost before = reading.sources.deep_view();
                    let ghost seen = source.deep_view();
                    reading.sources.push(source);
                    assert(reading.sources.deep_view() =~= before.push(seen));
                    read_on(conversation, user, reading)
                },
                Err(failure) => stop(conversation, user, failure),
            },
            (Stage::Measuring(owned), Reply::Capacity(remaining)) => {
                if would_overflow(remaining, self.compaction_threshold) {
                    let split: usize = owned.len();
                    close(conversation, user, owned, split, SummaryRequest::Compaction)
                } else {
                    read_owned(conversation, user, OwnedGoal::Time)
                }
            },
            (
                Stage::Summarizing { owned, split, request: reason },
                Reply::Summary(summarized),
            ) => match summarized {
                Ok(content) => {
                    let settled = self.settle(&owned, split, reason, content, None);
                    (
                        Turn { conversation, user, stage: Stage::Creating(settled) },
                        Request::Create(conversation),
                    )
                },
                Err(failure) => stop(conversation, user, failure),
            },
            (
                Stage::Summarizing { owned, split, request: reason },
                Reply::SummaryAndSearch { summary, related },
            ) => match summary {
                Ok(content) => {
                    let related = match related {
                        Ok(results) => Some(results),
                        Err(_) => None,
                    };
                    let settled = self.settle(&owned, split, reason, content, related);
                    (
                        Turn { conversation, user, stage: Stage::Creating(settled) },
                        Request::Create(conversation),
                    )
                },
                Err(failure) => stop(conversation, user, failure),
            },
            (Stage::Creating(split), Reply::Created(created)) => match created {
                Ok(child) => {
                    let summary = Summary {
                        content: split.content.clone(),
                        created_at: stamp.now,
                    };
                    (
                        Turn { conversation: child.id, user, stage: Stage::Summing(split) },
                        Request::UpdateSummary { conversation: child.id, summary },
                    )
                },
                Err(failure) => stop(conversation, user, failure),
            },
            (Stage::Summing(split), Reply::Done(done)) => match done {
                Ok(_) => {
                    let shared = split.referenced.clone();
                    (
                        Turn { conversation, user, stage: Stage::Referencing(split) },
                        Request::Reference { conversation, shared },
                    )
                },
                Err(failure) => stop(conversation, user, failure),
            },
            (Stage::Referencing(split), Reply::Done(done)) => match done {
                Ok(_) => (
                    Turn { conversation, user, stage: Stage::Switching(split) },
                    Request::SetCurrent(conversation),
                ),
                Err(failure) => stop(conversation, user, failure),
            },
            (Stage::Switching(split), Reply::Done(done)) => match done {
                Ok(_) => {
                    let text = split.content.clone();
                    (
                        Turn { conversation, user, stage: Stage::Indexing(split) },
                        Request::IndexSummary { conversation, text },
                    )
                },
                Err(failure) => stop(conversation, user, failure),
            },
            (Stage::Indexing(split), Reply::Done(_)) => link(conversation, user, split),
            (Stage::Linking, Reply::Done(_)) => read_owned(conversation, user, OwnedGoal::Time),
            (Stage::AppendingTime, Reply::Done(done)) => match done {
                Ok(_) => record_user(conversation, user),
                Err(failure) => stop(conversation, user, failure),
            },
            (Stage::AppendingUser, Reply::Done(done)) => match done {
                Ok(_) => read_context(conversation, user, ContextGoal::Generation),
                Err(failure) => stop(conversation, user, failure),
            },
            (stage, _) => (
                Turn { conversation, user, stage },
                Request::Fail(Failure::new("unexpected reply")),
            ),
        }
    }
}

} // verus!
