//! The decisions of a turn, each a function of what the turn has read.

use vstd::prelude::*;
use vstd::string::*;

use crate::json::{document, pretty_json, pretty_or_compact, Json};
use crate::language_model::{
    Prompt, PromptMessage, PromptMessageView, PromptView, ToolCall, ToolCallView,
};
use crate::memory_index::{RelatedConversation, Score};
use crate::models::conversation::{Conversation, ConversationItem, ConversationView};
use crate::models::message::{
    clone_contents, clone_messages, extract_text, text_of, Content, ContentView, Message, MessageId,
    MessageView, Role,
};
use crate::models::summary::{Summary, SummaryView};
use crate::summarizer::{SummaryRequest, SummaryRequestView};
use crate::text::{trim_end, trimmed_end};
use crate::time::Timestamp;
use crate::tool::{
    clone_definitions, ToolDefinition, ToolDefinitionView, ToolOutput, ToolOutputView,
};
use crate::topic_detector::{TopicShift, TopicShiftView};

verus! {

/// Number of trailing messages carried forward, as references, when a
/// conversation is compacted. A topic shift carries none.
pub const OVERLAP_MESSAGES: usize = 2;

/// Number of candidates asked of the memory index when looking for a
/// conversation to recall.
pub const RECALL_K: usize = 1;

/// The built-in tool that closes a confirmation thread.
pub const RESOLVE_TOOL_NAME: &'static str = "__resolve";

/// How long a conversation rests before the model is told the time again:
/// four hours.
pub const IDLE_NANOS: i128 = 14_400_000_000_000;

// ---------------------------------------------------------------------------
// Owned messages
// ---------------------------------------------------------------------------

/// The messages that a conversation owns, in order: those that one of its
/// entries names as a message of its own. Referenced messages are left out.
pub open spec fn owned_of(items: Seq<ConversationItem>, all: Seq<MessageView>) -> Seq<MessageView> {
    all.filter(|m: MessageView| items.contains(ConversationItem::Message(m.id)))
}

fn owns(items: &Vec<ConversationItem>, id: MessageId) -> (r: bool)
    ensures
        r == items@.contains(ConversationItem::Message(id)),
{
    let mut i: usize = 0;
    while i < items.len()
        invariant
            i <= items@.len(),
            forall|k: int| 0 <= k < i ==> items@[k] != ConversationItem::Message(id),
        decreases items@.len() - i,
    {
        if items[i] == ConversationItem::Message(id) {
            return true;
        }
        i += 1;
    }
    false
}

/// The messages owned by a conversation, out of all that it lists.
pub fn owned_messages(conversation: &Conversation, all: &Vec<Message>) -> (r: Vec<Message>)
    ensures
        r.deep_view() == owned_of(conversation@.items, all.deep_view()),
{
    let ghost own = |m: MessageView| conversation.items@.contains(ConversationItem::Message(m.id));
    let mut r: Vec<Message> = Vec::new();
    let mut i: usize = 0;
    while i < all.len()
        invariant
            i <= all@.len(),
            own == |m: MessageView| conversation.items@.contains(ConversationItem::Message(m.id)),
            r.deep_view() == all.deep_view().take(i as int).filter(own),
        decreases all@.len() - i,
    {
        proof {
            reveal(Seq::filter);
            let next = all.deep_view().take(i + 1);
            assert(next.drop_last() =~= all.deep_view().take(i as int));
            assert(next.last() == all@[i as int]@);
        }
        if owns(&conversation.items, all[i].id) {
            let ghost before = r.deep_view();
            r.push(all[i].clone());
            assert(r.deep_view() =~= before.push(all@[i as int]@));
        }
        i += 1;
    }
    assert(all.deep_view().take(i as int) =~= all.deep_view());
    r
}

// ---------------------------------------------------------------------------
// Topic drift
// ---------------------------------------------------------------------------

/// What the topic detector is shown: the owned messages and the incoming one.
pub fn drift_probe(owned: &Vec<Message>, incoming: &Message) -> (r: Vec<Message>)
    ensures
        r.deep_view() == owned.deep_view().push(incoming@),
{
    let mut r = clone_messages(owned);
    r.push(incoming.clone());
    assert(r.deep_view() =~= owned.deep_view().push(incoming@));
    r
}

/// The position of the first message with the given identity, or the number
/// of messages.
pub open spec fn position_of(messages: Seq<MessageView>, id: MessageId) -> nat
    decreases messages.len(),
{
    if messages.len() == 0 || messages[0].id == id {
        0
    } else {
        1 + position_of(messages.drop_first(), id)
    }
}

proof fn lemma_position_of(messages: Seq<MessageView>, id: MessageId, k: int)
    requires
        0 <= k <= messages.len(),
        forall|i: int| 0 <= i < k ==> (#[trigger] messages[i]).id != id,
        k < messages.len() ==> messages[k].id == id,
    ensures
        position_of(messages, id) == k,
    decreases k,
{
    if k > 0 {
        let rest = messages.drop_first();
        assert forall|i: int| 0 <= i < k - 1 implies (#[trigger] rest[i]).id != id by {
            assert(rest[i] == messages[i + 1]);
        }
        lemma_position_of(rest, id, k - 1);
    }
}

/// Where a detected shift splits the owned messages: before the message it
/// starts at, or after all of them where it starts at the incoming message or
/// at one that is not known. A shift at the very start splits nothing.
pub open spec fn drift_of(owned: Seq<MessageView>, shift: Option<TopicShiftView>) -> Option<
    (nat, Seq<char>),
> {
    match shift {
        Some(shift) => {
            let split = position_of(owned, shift.at_message_id);
            if split == 0 {
                None
            } else {
                Some((split, shift.new_topic))
            }
        },
        None => None,
    }
}

/// The boundary within `owned` and the new topic, or `None` when the
/// conversation stays on its subject.
pub fn detect_drift(owned: &Vec<Message>, shift: Option<TopicShift>) -> (r: Option<(usize, String)>)
    ensures
        match r {
            Some((split, topic)) => drift_of(owned.deep_view(), shift.deep_view()) == Some(
                (split as nat, topic@),
            ) && 0 < split <= owned@.len(),
            None => drift_of(owned.deep_view(), shift.deep_view()) is None,
        },
{
    match shift {
        Some(shift) => {
            let mut split: usize = 0;
            while split < owned.len() && owned[split].id != shift.at_message_id
                invariant
                    split <= owned@.len(),
                    forall|i: int|
                        0 <= i < split ==> (#[trigger] owned.deep_view()[i]).id
                            != shift.at_message_id,
                decreases owned@.len() - split,
            {
                split += 1;
            }
            proof {
                lemma_position_of(owned.deep_view(), shift.at_message_id, split as int);
            }
            if split == 0 {
                None
            } else {
                Some((split, shift.new_topic))
            }
        },
        None => None,
    }
}

// ---------------------------------------------------------------------------
// Splitting
// ---------------------------------------------------------------------------

/// The first `split` messages.
pub fn prior_messages(owned: &Vec<Message>, split: usize) -> (r: Vec<Message>)
    requires
        split <= owned@.len(),
    ensures
        r.deep_view() == owned.deep_view().take(split as int),
{
    let mut r = clone_messages(owned);
    r.truncate(split);
    assert(r.deep_view() =~= owned.deep_view().take(split as int));
    r
}

/// The messages from the first one of the user on.
pub open spec fn from_first_user(messages: Seq<MessageView>) -> Seq<MessageView>
    decreases messages.len(),
{
    if messages.len() == 0 || messages[0].role == Role::User {
        messages
    } else {
        from_first_user(messages.drop_first())
    }
}

proof fn lemma_from_first_user(messages: Seq<MessageView>, k: int)
    requires
        0 <= k <= messages.len(),
        forall|i: int| 0 <= i < k ==> (#[trigger] messages[i]).role != Role::User,
        k < messages.len() ==> messages[k].role == Role::User,
    ensures
        from_first_user(messages) == messages.skip(k),
    decreases k,
{
    if k > 0 {
        let rest = messages.drop_first();
        assert forall|i: int| 0 <= i < k - 1 implies (#[trigger] rest[i]).role != Role::User by {
            assert(rest[i] == messages[i + 1]);
        }
        lemma_from_first_user(rest, k - 1);
        assert(rest.skip(k - 1) =~= messages.skip(k));
    } else {
        assert(messages.skip(0) =~= messages);
    }
}

/// Where the overlap starts: `OVERLAP_MESSAGES` before the split.
pub open spec fn overlap_start(split: nat) -> int {
    if split >= OVERLAP_MESSAGES {
        split - OVERLAP_MESSAGES
    } else {
        0
    }
}

/// The messages that a split carries forward as references. A compaction
/// carries the trailing messages from the first one of the user on; a topic
/// shift carries none.
pub open spec fn carried(
    owned: Seq<MessageView>,
    split: nat,
    request: SummaryRequestView,
) -> Seq<MessageId> {
    match request {
        SummaryRequestView::TopicShift { .. } => Seq::empty(),
        SummaryRequestView::Compaction => from_first_user(
            owned.skip(overlap_start(split)),
        ).map_values(|m: MessageView| m.id),
    }
}

/// The identities of the messages that a split carries forward.
pub fn referenced_messages(owned: &Vec<Message>, split: usize, request: &SummaryRequest) -> (r: Vec<
    MessageId,
>)
    requires
        split <= owned@.len(),
    ensures
        r@ == carried(owned.deep_view(), split as nat, request@),
{
    let mut r: Vec<MessageId> = Vec::new();
    match request {
        SummaryRequest::TopicShift { .. } => {},
        SummaryRequest::Compaction => {
            let start: usize = if split >= OVERLAP_MESSAGES {
                split - OVERLAP_MESSAGES
            } else {
                0
            };
            let ghost tail = owned.deep_view().skip(start as int);
            let mut i: usize = start;
            while i < owned.len() && !matches!(owned[i].role, Role::User)
                invariant
                    start <= i <= owned@.len(),
                    tail == owned.deep_view().skip(start as int),
                    forall|k: int| 0 <= k < i - start ==> (#[trigger] tail[k]).role != Role::User,
                decreases owned@.len() - i,
            {
                i += 1;
            }
            proof {
                lemma_from_first_user(tail, i - start);
                assert(tail.skip(i - start) =~= owned.deep_view().skip(i as int));
            }
            let ghost kept = owned.deep_view().skip(i as int);
            let ghost first = i as int;
            while i < owned.len()
                invariant
                    first <= i <= owned@.len(),
                    r@.len() == i - first,
                    forall|k: int| 0 <= k < i - first ==> #[trigger] r@[k] == owned@[first + k].id,
                decreases owned@.len() - i,
            {
                r.push(owned[i].id);
                i += 1;
            }
            assert(r@ =~= kept.map_values(|m: MessageView| m.id));
        },
    }
    r
}

/// The recall candidate: the best result, if its score meets the threshold.
pub open spec fn accepted(results: Seq<RelatedConversation>, threshold: Score) -> Option<
    RelatedConversation,
> {
    if results.len() > 0 && results[0].score >= threshold {
        Some(results[0])
    } else {
        None
    }
}

/// The best search result, where it is similar enough.
pub fn discover_recall(results: &Vec<RelatedConversation>, threshold: Score) -> (r: Option<
    RelatedConversation,
>)
    ensures
        r == accepted(results@, threshold),
{
    if results.len() > 0 && results[0].score >= threshold {
        Some(results[0])
    } else {
        None
    }
}

// ---------------------------------------------------------------------------
// Context and prompt
// ---------------------------------------------------------------------------

/// What a generation is made from.
#[derive(Debug)]
pub struct Context {
    pub summary: Option<Summary>,
    pub recalled: Vec<String>,
    pub messages: Vec<Message>,
}

#[verifier::ext_equal]
pub struct ContextView {
    pub summary: Option<SummaryView>,
    pub recalled: Seq<Seq<char>>,
    pub messages: Seq<MessageView>,
}

impl View for Context {
    type V = ContextView;

    open spec fn view(&self) -> ContextView {
        ContextView {
            summary: self.summary.deep_view(),
            recalled: self.recalled.deep_view(),
            messages: self.messages.deep_view(),
        }
    }
}

/// `texts` with the summary of a recalled conversation behind them. One that
/// is not found or has no summary adds nothing.
pub open spec fn with_source(texts: Seq<Seq<char>>, source: Option<ConversationView>) -> Seq<
    Seq<char>,
> {
    match source {
        Some(conversation) => match conversation.summary {
            Some(summary) => texts.push(summary.content),
            None => texts,
        },
        None => texts,
    }
}

/// The summaries of the recalled conversations, in order.
pub open spec fn recalled_of(sources: Seq<Option<ConversationView>>) -> Seq<Seq<char>>
    decreases sources.len(),
{
    if sources.len() == 0 {
        Seq::empty()
    } else {
        with_source(recalled_of(sources.drop_last()), sources.last())
    }
}

/// Adds the summary of a recalled conversation.
pub fn add_recalled(texts: &mut Vec<String>, source: Option<Conversation>)
    ensures
        final(texts).deep_view() == with_source(old(texts).deep_view(), source.deep_view()),
{
    let ghost before = texts.deep_view();
    match source {
        Some(conversation) => match conversation.summary {
            Some(summary) => {
                let ghost content = summary.content@;
                texts.push(summary.content);
                assert(texts.deep_view() =~= before.push(content));
            },
            None => {},
        },
        None => {},
    }
}

/// The generation context of a conversation: its summary, the summaries of
/// the conversations it recalls, and every message in order.
pub fn assemble_context(
    conversation: &Conversation,
    messages: Vec<Message>,
    sources: Vec<Option<Conversation>>,
) -> (r: Context)
    ensures
        r@.summary == conversation@.summary,
        r@.recalled == recalled_of(sources.deep_view()),
        r@.messages == messages.deep_view(),
{
    let mut recalled: Vec<String> = Vec::new();
    let mut i: usize = 0;
    assert(recalled.deep_view() =~= recalled_of(sources.deep_view().take(0)));
    while i < sources.len()
        invariant
            i <= sources@.len(),
            recalled.deep_view() == recalled_of(sources.deep_view().take(i as int)),
        decreases sources@.len() - i,
    {
        proof {
            let next = sources.deep_view().take(i + 1);
            assert(next.drop_last() =~= sources.deep_view().take(i as int));
            assert(next.last() == sources@[i as int].deep_view());
        }
        let source = match &sources[i] {
            Some(conversation) => Some(conversation.clone()),
            None => None,
        };
        add_recalled(&mut recalled, source);
        i += 1;
    }
    assert(sources.deep_view().take(i as int) =~= sources.deep_view());
    let summary = match &conversation.summary {
        Some(summary) => Some(summary.clone()),
        None => None,
    };
    Context { summary, recalled, messages }
}

/// A message as the model sees it.
pub open spec fn prompt_message(m: MessageView) -> PromptMessageView {
    PromptMessageView { role: m.role, content: m.content }
}

/// Messages as the model sees them.
pub open spec fn prompt_messages_of(messages: Seq<MessageView>) -> Seq<PromptMessageView> {
    messages.map_values(|m: MessageView| prompt_message(m))
}

/// The messages of a prompt.
pub fn prompt_messages(messages: &Vec<Message>) -> (r: Vec<PromptMessage>)
    ensures
        r.deep_view() == prompt_messages_of(messages.deep_view()),
{
    let mut r: Vec<PromptMessage> = Vec::new();
    let mut i: usize = 0;
    while i < messages.len()
        invariant
            i <= messages@.len(),
            r@.len() == i,
            forall|k: int| 0 <= k < i ==> (#[trigger] r@[k])@ == prompt_message(messages@[k]@),
        decreases messages@.len() - i,
    {
        let content = clone_contents(&messages[i].content);
        r.push(PromptMessage { role: messages[i].role, content });
        i += 1;
    }
    assert(r.deep_view() =~= prompt_messages_of(messages.deep_view()));
    r
}

/// The prompt of a context.
pub open spec fn prompt_of(context: ContextView) -> PromptView {
    PromptView {
        summary: match context.summary {
            Some(summary) => Some(summary.content),
            None => None,
        },
        recalled: context.recalled,
        messages: prompt_messages_of(context.messages),
    }
}

/// The data that the language model is given for a context.
pub fn build_prompt(context: &Context) -> (r: Prompt)
    ensures
        r@ == prompt_of(context@),
{
    let summary = match &context.summary {
        Some(summary) => Some(summary.content.clone()),
        None => None,
    };
    let recalled = context.recalled.clone();
    assert(recalled.deep_view() =~= context.recalled.deep_view());
    let messages = prompt_messages(&context.messages);
    Prompt { summary, recalled, messages }
}

/// The prompt whose size decides whether `incoming` still fits.
pub fn overflow_prompt(context: &Context, incoming: &Message) -> (r: Prompt)
    ensures
        r@ == (PromptView {
            messages: prompt_of(context@).messages.push(prompt_message(incoming@)),
            ..prompt_of(context@)
        }),
{
    let mut prompt = build_prompt(context);
    let content = clone_contents(&incoming.content);
    let ghost before = prompt.messages.deep_view();
    prompt.messages.push(PromptMessage { role: incoming.role, content });
    assert(prompt.messages.deep_view() =~= before.push(prompt_message(incoming@)));
    prompt
}

/// Whether what is left of the context window is below the threshold.
pub fn would_overflow(remaining: usize, threshold: usize) -> (r: bool)
    ensures
        r == (remaining < threshold),
{
    remaining < threshold
}

// ---------------------------------------------------------------------------
// Telling the time
// ---------------------------------------------------------------------------

/// Whether a message holds nothing but notes of the time.
pub open spec fn only_temporal(m: MessageView) -> bool {
    forall|i: int| 0 <= i < m.content.len() ==> (#[trigger] m.content[i]) is TemporalUpdate
}

/// When the last message that says something was written.
pub open spec fn last_spoken(owned: Seq<MessageView>) -> Option<int>
    decreases owned.len(),
{
    if owned.len() == 0 {
        None
    } else if only_temporal(owned.last()) {
        last_spoken(owned.drop_last())
    } else {
        Some(owned.last().timestamp)
    }
}

/// Whether the model is to be told the time before the next user message: on
/// the first turn, and after more than four hours of rest.
pub open spec fn time_is_due(owned: Seq<MessageView>, now: int) -> bool {
    match last_spoken(owned) {
        Some(last) => now - last > IDLE_NANOS,
        None => true,
    }
}

fn is_only_temporal(m: &Message) -> (r: bool)
    ensures
        r == only_temporal(m@),
{
    let mut i: usize = 0;
    while i < m.content.len()
        invariant
            i <= m.content@.len(),
            forall|k: int| 0 <= k < i ==> (#[trigger] m@.content[k]) is TemporalUpdate,
        decreases m.content@.len() - i,
    {
        if !matches!(m.content[i], Content::TemporalUpdate { .. }) {
            assert(!(m@.content[i as int] is TemporalUpdate));
            return false;
        }
        i += 1;
    }
    true
}

/// Whether a note of the time goes before the next user message.
pub fn should_inject_temporal_update(owned: &Vec<Message>, now: Timestamp) -> (r: bool)
    ensures
        r == time_is_due(owned.deep_view(), now@),
{
    let mut i: usize = owned.len();
    assert(owned.deep_view().take(i as int) =~= owned.deep_view());
    while i > 0
        invariant
            i <= owned@.len(),
            last_spoken(owned.deep_view()) == last_spoken(owned.deep_view().take(i as int)),
        decreases i,
    {
        i -= 1;
        proof {
            let here = owned.deep_view().take(i + 1);
            assert(here.drop_last() =~= owned.deep_view().take(i as int));
            assert(here.last() == owned@[i as int]@);
        }
        if !is_only_temporal(&owned[i]) {
            let now_nanos: i128 = now.as_nanosecond();
            let last_nanos: i128 = owned[i].timestamp.as_nanosecond();
            let elapsed: i128 = now_nanos - last_nanos;
            return elapsed > IDLE_NANOS;
        }
    }
    assert(owned.deep_view().take(0).len() == 0);
    true
}

/// The hidden message that tells the model the time.
pub open spec fn temporal_view(id: MessageId, now: int) -> MessageView {
    MessageView {
        id,
        role: Role::User,
        content: seq![ContentView::TemporalUpdate { timestamp: crate::time::instant_text(now) }],
        timestamp: now,
    }
}

pub fn temporal_message(id: MessageId, now: Timestamp) -> (r: Message)
    ensures
        r@ == temporal_view(id, now@),
{
    let mut content: Vec<Content> = Vec::new();
    content.push(Content::TemporalUpdate { timestamp: now.to_string() });
    let r = Message { id, role: Role::User, content, timestamp: now };
    assert(r@.content =~= temporal_view(id, now@).content);
    r
}

/// A message of the assistant that is one text.
pub open spec fn assistant_view(id: MessageId, text: Seq<char>, now: int) -> MessageView {
    MessageView {
        id,
        role: Role::Assistant,
        content: seq![ContentView::Text { text }],
        timestamp: now,
    }
}

pub fn assistant_message(id: MessageId, text: String, now: Timestamp) -> (r: Message)
    ensures
        r@ == assistant_view(id, text@, now@),
{
    let ghost t = text@;
    let mut content: Vec<Content> = Vec::new();
    content.push(Content::Text { text });
    let r = Message { id, role: Role::Assistant, content, timestamp: now };
    assert(r@.content =~= assistant_view(id, t, now@).content);
    r
}

// ---------------------------------------------------------------------------
// Tool calls
// ---------------------------------------------------------------------------

/// A message of the assistant that is one tool call.
pub open spec fn call_view(id: MessageId, call: ToolCallView, now: int) -> MessageView {
    MessageView {
        id,
        role: Role::Assistant,
        content: seq![
            ContentView::ToolCall { id: call.id, name: call.name, input: call.input },
        ],
        timestamp: now,
    }
}

/// The message that answers a tool call.
pub open spec fn result_view(
    id: MessageId,
    call: ToolCallView,
    output: ToolOutputView,
    now: int,
) -> MessageView {
    MessageView {
        id,
        role: Role::User,
        content: seq![
            ContentView::ToolResult {
                id: call.id,
                output: output.text,
                is_error: output.is_error,
            },
        ],
        timestamp: now,
    }
}

/// A tool call and its result, side by side.
pub open spec fn pair_of(
    first: MessageId,
    second: MessageId,
    call: ToolCallView,
    output: ToolOutputView,
    now: int,
) -> Seq<MessageView> {
    seq![call_view(first, call, now), result_view(second, call, output, now)]
}

pub fn call_message(id: MessageId, call: &ToolCall, now: Timestamp) -> (r: Message)
    ensures
        r@ == call_view(id, call@, now@),
{
    let mut content: Vec<Content> = Vec::new();
    content.push(
        Content::ToolCall {
            id: call.id.clone(),
            name: call.name.clone(),
            input: call.input.clone(),
        },
    );
    let r = Message { id, role: Role::Assistant, content, timestamp: now };
    assert(r@.content =~= call_view(id, call@, now@).content);
    r
}

/// The adjacent call and result messages. The caller stores them together.
pub fn tool_pair_messages(
    first: MessageId,
    second: MessageId,
    call: &ToolCall,
    result: &ToolOutput,
    now: Timestamp,
) -> (r: Vec<Message>)
    ensures
        r.deep_view() == pair_of(first, second, call@, result@, now@),
{
    let mut content: Vec<Content> = Vec::new();
    content.push(
        Content::ToolResult {
            id: call.id.clone(),
            output: result.text.clone(),
            is_error: result.is_error,
        },
    );
    let answer = Message { id: second, role: Role::User, content, timestamp: now };
    assert(answer@.content =~= result_view(second, call@, result@, now@).content);
    let mut r: Vec<Message> = Vec::new();
    r.push(call_message(first, call, now));
    r.push(answer);
    assert(r.deep_view() =~= pair_of(first, second, call@, result@, now@));
    r
}

/// The first tool call among the contents.
pub open spec fn first_call(contents: Seq<ContentView>) -> Option<ToolCallView>
    decreases contents.len(),
{
    if contents.len() == 0 {
        None
    } else {
        match contents[0] {
            ContentView::ToolCall { id, name, input } => Some(ToolCallView { id, name, input }),
            _ => first_call(contents.drop_first()),
        }
    }
}

/// The first tool call of a confirmation thread: the one it is about.
pub open spec fn pending_call(messages: Seq<MessageView>) -> Option<ToolCallView>
    decreases messages.len(),
{
    if messages.len() == 0 {
        None
    } else {
        match first_call(messages[0].content) {
            Some(call) => Some(call),
            None => pending_call(messages.drop_first()),
        }
    }
}

fn first_call_in(contents: &Vec<Content>) -> (r: Option<ToolCall>)
    ensures
        r.deep_view() == first_call(contents.deep_view()),
{
    let mut i: usize = 0;
    assert(contents.deep_view().skip(0) =~= contents.deep_view());
    while i < contents.len()
        invariant
            i <= contents@.len(),
            first_call(contents.deep_view()) == first_call(contents.deep_view().skip(i as int)),
        decreases contents@.len() - i,
    {
        proof {
            let here = contents.deep_view().skip(i as int);
            assert(here[0] == contents@[i as int]@);
            assert(here.drop_first() =~= contents.deep_view().skip(i + 1));
        }
        match &contents[i] {
            Content::ToolCall { id, name, input } => {
                return Some(
                    ToolCall { id: id.clone(), name: name.clone(), input: input.clone() },
                );
            },
            _ => {},
        }
        i += 1;
    }
    None
}

/// The tool call that a confirmation thread is about.
pub fn pending_call_from_thread(messages: &Vec<Message>) -> (r: Option<ToolCall>)
    ensures
        r.deep_view() == pending_call(messages.deep_view()),
{
    let mut i: usize = 0;
    assert(messages.deep_view().skip(0) =~= messages.deep_view());
    while i < messages.len()
        invariant
            i <= messages@.len(),
            pending_call(messages.deep_view()) == pending_call(
                messages.deep_view().skip(i as int),
            ),
        decreases messages@.len() - i,
    {
        proof {
            let here = messages.deep_view().skip(i as int);
            assert(here[0] == messages@[i as int]@);
            assert(here.drop_first() =~= messages.deep_view().skip(i + 1));
        }
        match first_call_in(&messages[i].content) {
            Some(call) => {
                return Some(call);
            },
            None => {},
        }
        i += 1;
    }
    None
}

/// The definition of the tool that closes a confirmation thread.
pub open spec fn resolve_definition() -> ToolDefinitionView {
    ToolDefinitionView {
        name: RESOLVE_TOOL_NAME@,
        description: "Close a confirmation thread. Use action=\"execute\" to proceed with the tool call or action=\"cancel\" to abort it."@,
        input_schema: document(
            "{\"properties\":{\"action\":{\"enum\":[\"execute\",\"cancel\"],\"type\":\"string\"}},\"required\":[\"action\"],\"type\":\"object\"}"@,
        ),
    }
}

/// The definitions with the one that closes a confirmation thread behind them.
pub fn tools_with_resolve_sentinel(definitions: &Vec<ToolDefinition>) -> (r: Vec<ToolDefinition>)
    ensures
        r.deep_view() == definitions.deep_view().push(resolve_definition()),
{
    let mut r = clone_definitions(definitions);
    r.push(
        ToolDefinition {
            name: RESOLVE_TOOL_NAME.to_owned(),
            description: "Close a confirmation thread. Use action=\"execute\" to proceed with the tool call or action=\"cancel\" to abort it.".to_owned(),
            input_schema: Json::parse_or_null(
                "{\"properties\":{\"action\":{\"enum\":[\"execute\",\"cancel\"],\"type\":\"string\"}},\"required\":[\"action\"],\"type\":\"object\"}",
            ),
        },
    );
    assert(r.deep_view() =~= definitions.deep_view().push(resolve_definition()));
    r
}

/// The question that opens a confirmation thread, given the indented text of
/// the call's input.
pub open spec fn confirm_text(name: Seq<char>, input: Seq<char>) -> Seq<char> {
    "You are about to call the `"@ + name + "` tool with the following input: "@ + input
        + ". Describe what you are about to do and ask the user to confirm (reply \"yes\" to proceed, \"no\" to cancel)."@
}

/// A prompt of one message of the user.
pub open spec fn question_view(text: Seq<char>) -> PromptView {
    PromptView {
        summary: None,
        recalled: Seq::empty(),
        messages: seq![
            PromptMessageView { role: Role::User, content: seq![ContentView::Text { text }] },
        ],
    }
}

/// The prompt for the model's opening question, for an input that prints as
/// `input`.
pub fn confirm_prompt(name: &str, input: &str) -> (r: Prompt)
    ensures
        r@ == question_view(confirm_text(name@, input@)),
{
    let mut text = "You are about to call the `".to_owned();
    text.append(name);
    text.append("` tool with the following input: ");
    text.append(input);
    text.append(
        ". Describe what you are about to do and ask the user to confirm (reply \"yes\" to proceed, \"no\" to cancel).",
    );
    let ghost shown = text@;
    let mut content: Vec<Content> = Vec::new();
    content.push(Content::Text { text });
    let message = PromptMessage { role: Role::User, content };
    assert(message@.content =~= seq![ContentView::Text { text: shown }]);
    let mut messages: Vec<PromptMessage> = Vec::new();
    messages.push(message);
    let recalled: Vec<String> = Vec::new();
    assert(messages.deep_view() =~= question_view(shown).messages);
    assert(recalled.deep_view() =~= Seq::<Seq<char>>::empty());
    Prompt { summary: None, recalled, messages }
}

/// The prompt in which the model states what it intends to do and asks the
/// user to confirm.
pub fn build_confirm_prompt(call: &ToolCall) -> (r: Prompt)
    ensures
        r@ == question_view(
            confirm_text(call@.name, pretty_or_compact(pretty_json(call@.input), call@.input)),
        ),
{
    let input = call.input.pretty();
    confirm_prompt(call.name.as_str(), input.as_str())
}

// ---------------------------------------------------------------------------
// Prompts in the log
// ---------------------------------------------------------------------------

/// The recalled summaries, each with a blank line behind it.
pub open spec fn recalled_block(recalled: Seq<Seq<char>>) -> Seq<char>
    decreases recalled.len(),
{
    if recalled.len() == 0 {
        Seq::empty()
    } else {
        recalled_block(recalled.drop_last()) + recalled.last() + "\n\n"@
    }
}

/// The messages as `[role]` blocks, each with a blank line behind it.
pub open spec fn message_blocks(messages: Seq<PromptMessageView>) -> Seq<char>
    decreases messages.len(),
{
    if messages.len() == 0 {
        Seq::empty()
    } else {
        message_blocks(messages.drop_last()) + "["@ + messages.last().role.word() + "]\n"@
            + text_of(messages.last().content) + "\n\n"@
    }
}

/// The summary as a block.
pub open spec fn summary_section(summary: Option<Seq<char>>) -> Seq<char> {
    match summary {
        Some(text) => "[summary]\n"@ + text + "\n\n"@,
        None => Seq::empty(),
    }
}

/// The recalled summaries as one block.
pub open spec fn recalled_section(recalled: Seq<Seq<char>>) -> Seq<char> {
    if recalled.len() == 0 {
        Seq::empty()
    } else {
        "[recalled]\n"@ + recalled_block(recalled)
    }
}

/// A prompt as `[role]` blocks: the summary, the recalled summaries and the
/// messages, without white space at the end.
pub open spec fn prompt_text(prompt: PromptView) -> Seq<char> {
    trimmed_end(
        summary_section(prompt.summary) + recalled_section(prompt.recalled) + message_blocks(
            prompt.messages,
        ),
    )
}

/// Renders a prompt as readable blocks for the log.
pub fn render_prompt(prompt: &Prompt) -> (r: String)
    ensures
        r@ == prompt_text(prompt@),
{
    let mut out = String::new();
    match &prompt.summary {
        Some(text) => {
            out.append("[summary]\n");
            out.append(text.as_str());
            out.append("\n\n");
        },
        None => {},
    }
    let ghost summary = out@;
    assert(summary =~= summary_section(prompt@.summary));
    if prompt.recalled.len() > 0 {
        out.append("[recalled]\n");
        let ghost head = out@;
        let ghost entries = prompt.recalled.deep_view();
        let mut i: usize = 0;
        assert(out@ =~= head + recalled_block(entries.take(0)));
        while i < prompt.recalled.len()
            invariant
                i <= prompt.recalled@.len(),
                entries == prompt.recalled.deep_view(),
                out@ == head + recalled_block(entries.take(i as int)),
            decreases prompt.recalled@.len() - i,
        {
            proof {
                let next = entries.take(i + 1);
                assert(next.drop_last() =~= entries.take(i as int));
                assert(next.last() == prompt.recalled@[i as int]@);
            }
            out.append(prompt.recalled[i].as_str());
            out.append("\n\n");
            assert(out@ =~= head + recalled_block(entries.take(i + 1)));
            i += 1;
        }
        assert(entries.take(i as int) =~= entries);
    }
    assert(out@ =~= summary + recalled_section(prompt@.recalled));
    let ghost head = out@;
    let ghost messages = prompt.messages.deep_view();
    let mut i: usize = 0;
    assert(out@ =~= head + message_blocks(messages.take(0)));
    while i < prompt.messages.len()
        invariant
            i <= prompt.messages@.len(),
            messages == prompt.messages.deep_view(),
            out@ == head + message_blocks(messages.take(i as int)),
        decreases prompt.messages@.len() - i,
    {
        proof {
            let next = messages.take(i + 1);
            assert(next.drop_last() =~= messages.take(i as int));
            assert(next.last() == prompt.messages@[i as int]@);
        }
        let text = extract_text(&prompt.messages[i].content);
        out.append("[");
        out.append(prompt.messages[i].role.name());
        out.append("]\n");
        out.append(text.as_str());
        out.append("\n\n");
        assert(out@ =~= head + message_blocks(messages.take(i + 1)));
        i += 1;
    }
    assert(messages.take(i as int) =~= messages);
    trim_end(out.as_str())
}

} // verus!
