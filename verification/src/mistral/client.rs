//! The requests of the adapter, and what it makes of the replies.

use vstd::prelude::*;
use vstd::string::*;

use crate::failure::Failure;
use crate::json::{compact_of, Json};
use crate::language_model::{Prompt, PromptMessage, PromptMessageView};
use crate::memory_index::Embedding;
use crate::mistral::{MistralConfig, MistralConfigView};
use crate::models::message::{
    extract_text, text_of, Content, ContentView, Message, MessageView, Role,
};
use crate::prompts::{outcome_view, render, rendered, tame_under, PromptRegistry};
use crate::summarizer::{SummaryRequest, SummaryRequestView};
use crate::text::{join, joined, trim, trimmed, views};
use crate::tool::{ToolDefinition, ToolDefinitionView};
use crate::topic_detector::{TopicShift, TopicShiftView};

verus! {

/// The dimension of the vectors that `mistral-embed` produces.
pub const MISTRAL_EMBED_DIMENSION: usize = 1024;

/// The embedding model where none is configured.
pub const DEFAULT_EMBED_MODEL: &'static str = "mistral-embed";

/// The temperature of topic detection, in thousandths. Detection is a
/// classification: the same conversation yields the same decision.
pub const TOPIC_DETECTION_TEMPERATURE: u32 = 0;

/// What is left of the context window: the service does not say, so a fixed
/// number stands for it.
pub const REMAINING_CAPACITY: usize = 4096;

// ---------------------------------------------------------------------------
// The wire
// ---------------------------------------------------------------------------

/// The function of a tool call.
#[derive(Debug)]
pub struct MistralFunctionCall {
    pub name: String,
    pub arguments: String,
}

/// A tool call on the wire.
#[derive(Debug)]
pub struct MistralToolCall {
    pub id: String,
    pub kind: String,
    pub function: MistralFunctionCall,
}

#[verifier::ext_equal]
pub struct WireCallView {
    pub id: Seq<char>,
    pub kind: Seq<char>,
    pub name: Seq<char>,
    pub arguments: Seq<char>,
}

impl View for MistralToolCall {
    type V = WireCallView;

    open spec fn view(&self) -> WireCallView {
        WireCallView {
            id: self.id@,
            kind: self.kind@,
            name: self.function.name@,
            arguments: self.function.arguments@,
        }
    }
}

impl DeepView for MistralToolCall {
    type V = WireCallView;

    open spec fn deep_view(&self) -> WireCallView {
        self@
    }
}

/// A message on the wire.
#[derive(Debug)]
pub struct MistralMessage {
    pub role: String,
    pub content: Option<String>,
    pub tool_calls: Option<Vec<MistralToolCall>>,
    pub tool_call_id: Option<String>,
    pub name: Option<String>,
}

#[verifier::ext_equal]
pub struct WireMessageView {
    pub role: Seq<char>,
    pub content: Option<Seq<char>>,
    pub tool_calls: Option<Seq<WireCallView>>,
    pub tool_call_id: Option<Seq<char>>,
    pub name: Option<Seq<char>>,
}

impl View for MistralMessage {
    type V = WireMessageView;

    open spec fn view(&self) -> WireMessageView {
        WireMessageView {
            role: self.role@,
            content: self.content.deep_view(),
            tool_calls: self.tool_calls.deep_view(),
            tool_call_id: self.tool_call_id.deep_view(),
            name: self.name.deep_view(),
        }
    }
}

impl DeepView for MistralMessage {
    type V = WireMessageView;

    open spec fn deep_view(&self) -> WireMessageView {
        self@
    }
}

/// The function that a tool stands for.
#[derive(Debug)]
pub struct MistralFunction {
    pub name: String,
    pub description: String,
    pub parameters: Json,
}

/// A tool on the wire.
#[derive(Debug)]
pub struct MistralTool {
    pub kind: String,
    pub function: MistralFunction,
}

#[verifier::ext_equal]
pub struct WireToolView {
    pub kind: Seq<char>,
    pub name: Seq<char>,
    pub description: Seq<char>,
    pub parameters: Seq<char>,
}

impl View for MistralTool {
    type V = WireToolView;

    open spec fn view(&self) -> WireToolView {
        WireToolView {
            kind: self.kind@,
            name: self.function.name@,
            description: self.function.description@,
            parameters: self.function.parameters@,
        }
    }
}

impl DeepView for MistralTool {
    type V = WireToolView;

    open spec fn deep_view(&self) -> WireToolView {
        self@
    }
}

/// A chat request.
#[derive(Debug)]
pub struct MistralRequest {
    pub model: String,
    pub messages: Vec<MistralMessage>,
    pub stream: Option<bool>,
    /// The kind of the wanted response format.
    pub response_format: Option<String>,
    /// In thousandths.
    pub temperature: Option<u32>,
    pub tools: Option<Vec<MistralTool>>,
    pub tool_choice: Option<String>,
}

#[verifier::ext_equal]
pub struct RequestView {
    pub model: Seq<char>,
    pub messages: Seq<WireMessageView>,
    pub stream: Option<bool>,
    pub response_format: Option<Seq<char>>,
    pub temperature: Option<u32>,
    pub tools: Option<Seq<WireToolView>>,
    pub tool_choice: Option<Seq<char>>,
}

impl View for MistralRequest {
    type V = RequestView;

    open spec fn view(&self) -> RequestView {
        RequestView {
            model: self.model@,
            messages: self.messages.deep_view(),
            stream: self.stream,
            response_format: self.response_format.deep_view(),
            temperature: self.temperature,
            tools: self.tools.deep_view(),
            tool_choice: self.tool_choice.deep_view(),
        }
    }
}

/// An embedding request.
#[derive(Debug)]
pub struct EmbedRequest {
    pub model: String,
    pub input: Vec<String>,
}

/// What the topic detector answered.
#[derive(Debug)]
pub struct ShiftResponse {
    pub shifted: bool,
    pub new_topic: Option<String>,
    pub at_message_index: Option<usize>,
}

// ---------------------------------------------------------------------------
// Messages
// ---------------------------------------------------------------------------

/// A message that is one text.
pub open spec fn plain(role: Seq<char>, text: Seq<char>) -> WireMessageView {
    WireMessageView {
        role,
        content: Some(text),
        tool_calls: None,
        tool_call_id: None,
        name: None,
    }
}

fn plain_message(role: &str, text: String) -> (r: MistralMessage)
    ensures
        r@ == plain(role@, text@),
{
    MistralMessage {
        role: role.to_owned(),
        content: Some(text),
        tool_calls: None,
        tool_call_id: None,
        name: None,
    }
}

/// How a note of the time is shown to the model.
pub open spec fn time_note(timestamp: Seq<char>) -> Seq<char> {
    "<temporal_update>"@ + timestamp + "</temporal_update>"@
}

/// The texts among the contents, each a message of its own.
pub open spec fn wire_texts(role: Role, contents: Seq<ContentView>) -> Seq<WireMessageView>
    decreases contents.len(),
{
    if contents.len() == 0 {
        Seq::empty()
    } else {
        let before = wire_texts(role, contents.drop_last());
        match contents.last() {
            ContentView::Text { text } => before.push(plain(role.word(), text)),
            ContentView::TemporalUpdate { timestamp } => before.push(
                plain("user"@, time_note(timestamp)),
            ),
            _ => before,
        }
    }
}

/// The tool calls among the contents.
pub open spec fn wire_calls(contents: Seq<ContentView>) -> Seq<WireCallView>
    decreases contents.len(),
{
    if contents.len() == 0 {
        Seq::empty()
    } else {
        let before = wire_calls(contents.drop_last());
        match contents.last() {
            ContentView::ToolCall { id, name, input } => before.push(
                WireCallView { id, kind: "function"@, name, arguments: compact_of(input) },
            ),
            _ => before,
        }
    }
}

/// The tool results among the contents, each a message of its own.
pub open spec fn wire_results(contents: Seq<ContentView>) -> Seq<WireMessageView>
    decreases contents.len(),
{
    if contents.len() == 0 {
        Seq::empty()
    } else {
        let before = wire_results(contents.drop_last());
        match contents.last() {
            ContentView::ToolResult { id, output, is_error } => before.push(
                WireMessageView { tool_call_id: Some(id), ..plain("tool"@, output) },
            ),
            _ => before,
        }
    }
}

/// The message that makes tool calls.
pub open spec fn calls_message(calls: Seq<WireCallView>) -> WireMessageView {
    WireMessageView {
        role: "assistant"@,
        content: None,
        tool_calls: Some(calls),
        tool_call_id: None,
        name: None,
    }
}

/// A message on the wire: its texts, then one message with all its tool
/// calls, then its tool results.
pub open spec fn wire_of(m: PromptMessageView) -> Seq<WireMessageView> {
    let calls = wire_calls(m.content);
    wire_texts(m.role, m.content) + if calls.len() > 0 {
        seq![calls_message(calls)]
    } else {
        Seq::empty()
    } + wire_results(m.content)
}

/// Messages on the wire, one after the other.
pub open spec fn wire_messages(messages: Seq<PromptMessageView>) -> Seq<WireMessageView>
    decreases messages.len(),
{
    if messages.len() == 0 {
        Seq::empty()
    } else {
        wire_messages(messages.drop_last()) + wire_of(messages.last())
    }
}

/// Renders a message into the wire shape. A resolved pair of call and result
/// replays on the next turn.
pub fn render_message(m: &PromptMessage) -> (r: Vec<MistralMessage>)
    ensures
        r.deep_view() == wire_of(m@),
{
    let mut out: Vec<MistralMessage> = Vec::new();
    let mut calls: Vec<MistralToolCall> = Vec::new();
    let mut results: Vec<MistralMessage> = Vec::new();
    let ghost contents = m.content.deep_view();
    let mut i: usize = 0;
    assert(out.deep_view() =~= wire_texts(m.role, contents.take(0)));
    assert(calls.deep_view() =~= wire_calls(contents.take(0)));
    assert(results.deep_view() =~= wire_results(contents.take(0)));
    while i < m.content.len()
        invariant
            i <= m.content@.len(),
            contents == m.content.deep_view(),
            out.deep_view() == wire_texts(m.role, contents.take(i as int)),
            calls.deep_view() == wire_calls(contents.take(i as int)),
            results.deep_view() == wire_results(contents.take(i as int)),
        decreases m.content@.len() - i,
    {
        proof {
            let next = contents.take(i + 1);
            assert(next.drop_last() =~= contents.take(i as int));
            assert(next.last() == m.content@[i as int]@);
        }
        match &m.content[i] {
            Content::Text { text } => {
                let ghost before = out.deep_view();
                out.push(plain_message(m.role.name(), text.clone()));
                assert(out.deep_view() =~= before.push(plain(m.role.word(), text@)));
            },
            Content::ToolCall { id, name, input } => {
                let ghost before = calls.deep_view();
                let call = MistralToolCall {
                    id: id.clone(),
                    kind: "function".to_owned(),
                    function: MistralFunctionCall {
                        name: name.clone(),
                        arguments: input.compact(),
                    },
                };
                let ghost added = call@;
                calls.push(call);
                assert(calls.deep_view() =~= before.push(added));
            },
            Content::ToolResult { id, output, is_error: _ } => {
                let ghost before = results.deep_view();
                let result = MistralMessage {
                    role: "tool".to_owned(),
                    content: Some(output.clone()),
                    tool_calls: None,
                    tool_call_id: Some(id.clone()),
                    name: None,
                };
                let ghost added = result@;
                results.push(result);
                assert(results.deep_view() =~= before.push(added));
            },
            Content::TemporalUpdate { timestamp } => {
                let ghost before = out.deep_view();
                let mut text = "<temporal_update>".to_owned();
                text.append(timestamp.as_str());
                text.append("</temporal_update>");
                let ghost shown = text@;
                out.push(plain_message("user", text));
                assert(shown =~= time_note(timestamp@));
                assert(out.deep_view() =~= before.push(plain("user"@, shown)));
            },
        }
        i += 1;
    }
    assert(contents.take(i as int) =~= contents);
    if calls.len() > 0 {
        let ghost before = out.deep_view();
        let ghost made = calls.deep_view();
        out.push(
            MistralMessage {
                role: "assistant".to_owned(),
                content: None,
                tool_calls: Some(calls),
                tool_call_id: None,
                name: None,
            },
        );
        assert(out.deep_view() =~= before + seq![calls_message(made)]);
    } else {
        assert(out.deep_view() =~= out.deep_view() + Seq::<WireMessageView>::empty());
    }
    let ghost head = out@;
    let ghost shown = out.deep_view();
    let ghost tail = results@;
    let ghost answered = results.deep_view();
    out.append(&mut results);
    assert(out@ =~= head + tail);
    assert(out.deep_view() =~= shown + answered);
    out
}

proof fn lemma_wire_concat(a: Seq<PromptMessageView>, b: Seq<PromptMessageView>)
    ensures
        wire_messages(a + b) == wire_messages(a) + wire_messages(b),
    decreases b.len(),
{
    if b.len() == 0 {
        assert(a + b =~= a);
        assert(wire_messages(a) + wire_messages(b) =~= wire_messages(a));
    } else {
        assert((a + b).drop_last() =~= a + b.drop_last());
        lemma_wire_concat(a, b.drop_last());
        assert(wire_messages(a + b) =~= wire_messages(a) + wire_messages(b));
    }
}

proof fn lemma_wire_pair(
    id: Seq<char>,
    name: Seq<char>,
    input: Seq<char>,
    output: Seq<char>,
    is_error: bool,
)
    ensures
        wire_messages(prompt_pair(id, name, input, output, is_error)) == wire_pair(
            id,
            name,
            input,
            output,
        ),
{
    let pair = prompt_pair(id, name, input, output, is_error);
    let call = pair[0];
    let result = pair[1];
    assert(call.content.drop_last() =~= Seq::<ContentView>::empty());
    assert(result.content.drop_last() =~= Seq::<ContentView>::empty());
    assert(pair.drop_last() =~= seq![call]);
    assert(seq![call].drop_last() =~= Seq::<PromptMessageView>::empty());
    reveal_with_fuel(wire_texts, 2);
    reveal_with_fuel(wire_calls, 2);
    reveal_with_fuel(wire_results, 2);
    reveal_with_fuel(wire_messages, 3);
    let sent = wire_pair(id, name, input, output);
    assert(wire_calls(call.content) =~= seq![
        WireCallView { id, kind: "function"@, name, arguments: compact_of(input) },
    ]);
    assert(wire_of(call) =~= seq![sent[0]]);
    assert(wire_of(result) =~= seq![sent[1]]);
    assert(wire_messages(pair) =~= sent);
}

/// A tool call and its result as the model is shown them.
pub open spec fn prompt_pair(
    id: Seq<char>,
    name: Seq<char>,
    input: Seq<char>,
    output: Seq<char>,
    is_error: bool,
) -> Seq<PromptMessageView> {
    seq![
        PromptMessageView {
            role: Role::Assistant,
            content: seq![ContentView::ToolCall { id, name, input }],
        },
        PromptMessageView {
            role: Role::User,
            content: seq![ContentView::ToolResult { id, output, is_error }],
        },
    ]
}

/// A tool call and its result on the wire: the result names the call.
pub open spec fn wire_pair(
    id: Seq<char>,
    name: Seq<char>,
    input: Seq<char>,
    output: Seq<char>,
) -> Seq<WireMessageView> {
    seq![
        calls_message(seq![WireCallView { id, kind: "function"@, name, arguments: compact_of(input) }]),
        WireMessageView { tool_call_id: Some(id), ..plain("tool"@, output) },
    ]
}

/// A call and its result that stand side by side in a conversation reach the
/// service side by side: the call, followed at once by the result that names
/// it, with what came before and after on either side.
pub proof fn law_pair_replays_adjacent(
    before: Seq<PromptMessageView>,
    id: Seq<char>,
    name: Seq<char>,
    input: Seq<char>,
    output: Seq<char>,
    is_error: bool,
    after: Seq<PromptMessageView>,
)
    ensures
        wire_messages(before + prompt_pair(id, name, input, output, is_error) + after)
            == wire_messages(before) + wire_pair(id, name, input, output) + wire_messages(after),
{
    let pair = prompt_pair(id, name, input, output, is_error);
    lemma_wire_pair(id, name, input, output, is_error);
    lemma_wire_concat(before, pair);
    lemma_wire_concat(before + pair, after);
}

/// The wire payload as `[role]` blocks for the log.
pub open spec fn payload_text(messages: Seq<WireMessageView>) -> Seq<char> {
    joined(messages.map_values(|m: WireMessageView| payload_block(m)), "\n\n"@)
}

pub open spec fn payload_block(m: WireMessageView) -> Seq<char> {
    "["@ + m.role + "]\n"@ + match m.content {
        Some(text) => text,
        None => Seq::empty(),
    }
}

/// Renders the wire payload as readable blocks for the log.
pub fn format_mistral_messages(messages: &Vec<MistralMessage>) -> (r: String)
    ensures
        r@ == payload_text(messages.deep_view()),
{
    let mut blocks: Vec<String> = Vec::new();
    let mut i: usize = 0;
    while i < messages.len()
        invariant
            i <= messages@.len(),
            blocks@.len() == i,
            forall|k: int| 0 <= k < i ==> (#[trigger] blocks@[k])@ == payload_block(messages@[k]@),
        decreases messages@.len() - i,
    {
        let mut block = "[".to_owned();
        block.append(messages[i].role.as_str());
        block.append("]\n");
        match &messages[i].content {
            Some(text) => {
                block.append(text.as_str());
            },
            None => {},
        }
        assert(block@ =~= payload_block(messages@[i as int]@));
        blocks.push(block);
        i += 1;
    }
    assert(views(blocks@) =~= messages.deep_view().map_values(
        |m: WireMessageView| payload_block(m),
    ));
    join(&blocks, "\n\n")
}

/// A conversation as the summariser and the topic detector see it.
pub open spec fn conversation_text(messages: Seq<MessageView>) -> Seq<char> {
    "<conversation>\n"@ + joined(
        messages.map_values(|m: MessageView| conversation_block(m)),
        "\n\n"@,
    ) + "\n</conversation>"@
}

pub open spec fn conversation_block(m: MessageView) -> Seq<char> {
    "<"@ + m.role.word() + ">\n"@ + text_of(m.content) + "\n</"@ + m.role.word() + ">"@
}

/// Formats a conversation as blocks by role.
pub fn format_messages(messages: &Vec<Message>) -> (r: String)
    ensures
        r@ == conversation_text(messages.deep_view()),
{
    let mut blocks: Vec<String> = Vec::new();
    let mut i: usize = 0;
    while i < messages.len()
        invariant
            i <= messages@.len(),
            blocks@.len() == i,
            forall|k: int|
                0 <= k < i ==> (#[trigger] blocks@[k])@ == conversation_block(messages@[k]@),
        decreases messages@.len() - i,
    {
        let role = messages[i].role.name();
        let text = extract_text(&messages[i].content);
        let mut block = "<".to_owned();
        block.append(role);
        block.append(">\n");
        block.append(text.as_str());
        block.append("\n</");
        block.append(role);
        block.append(">");
        assert(block@ =~= conversation_block(messages@[i as int]@));
        blocks.push(block);
        i += 1;
    }
    assert(views(blocks@) =~= messages.deep_view().map_values(
        |m: MessageView| conversation_block(m),
    ));
    let inner = join(&blocks, "\n\n");
    let mut r = "<conversation>\n".to_owned();
    r.append(inner.as_str());
    r.append("\n</conversation>");
    r
}

// ---------------------------------------------------------------------------
// Recalled summaries
// ---------------------------------------------------------------------------

/// The summaries that say something, without white space around them.
pub open spec fn kept_summaries(recalled: Seq<Seq<char>>) -> Seq<Seq<char>>
    decreases recalled.len(),
{
    if recalled.len() == 0 {
        Seq::empty()
    } else {
        let before = kept_summaries(recalled.drop_last());
        let last = trimmed(recalled.last());
        if last.len() > 0 {
            before.push(last)
        } else {
            before
        }
    }
}

/// The recalled summaries as one text, if any says something.
pub open spec fn recalled_text(recalled: Seq<Seq<char>>) -> Option<Seq<char>> {
    let kept = kept_summaries(recalled);
    if kept.len() == 0 {
        None
    } else {
        Some(joined(kept, "\n\n---\n\n"@))
    }
}

/// Joins the recalled summaries into one text.
pub fn render_recalled(recalled: &Vec<String>) -> (r: Option<String>)
    ensures
        r.deep_view() == recalled_text(recalled.deep_view()),
{
    let ghost all = recalled.deep_view();
    let mut kept: Vec<String> = Vec::new();
    let mut i: usize = 0;
    assert(views(kept@) =~= kept_summaries(all.take(0)));
    while i < recalled.len()
        invariant
            i <= recalled@.len(),
            all == recalled.deep_view(),
            views(kept@) == kept_summaries(all.take(i as int)),
        decreases recalled@.len() - i,
    {
        proof {
            let next = all.take(i + 1);
            assert(next.drop_last() =~= all.take(i as int));
            assert(next.last() == recalled@[i as int]@);
        }
        let summary = trim(recalled[i].as_str());
        if !summary.as_str().is_empty() {
            let ghost before = views(kept@);
            kept.push(summary);
            assert(views(kept@) =~= before.push(summary@));
        }
        i += 1;
    }
    assert(all.take(i as int) =~= all);
    assert(kept@.len() == views(kept@).len());
    if kept.len() == 0 {
        None
    } else {
        Some(join(&kept, "\n\n---\n\n"))
    }
}

// ---------------------------------------------------------------------------
// Replies
// ---------------------------------------------------------------------------

/// What a detector's answer comes to: a shift only where the answer says so,
/// names the topic and points at one of the messages.
pub open spec fn shift_of(
    messages: Seq<MessageView>,
    shifted: bool,
    new_topic: Option<Seq<char>>,
    at: Option<usize>,
) -> Option<TopicShiftView> {
    if !shifted {
        None
    } else {
        match (new_topic, at) {
            (Some(new_topic), Some(index)) => if index < messages.len() {
                Some(TopicShiftView { at_message_id: messages[index as int].id, new_topic })
            } else {
                None
            },
            _ => None,
        }
    }
}

/// The shift that the topic detector's answer reports.
pub fn topic_shift_from_response(messages: &Vec<Message>, parsed: ShiftResponse) -> (r: Option<
    TopicShift,
>)
    ensures
        r.deep_view() == shift_of(
            messages.deep_view(),
            parsed.shifted,
            parsed.new_topic.deep_view(),
            parsed.at_message_index,
        ),
{
    if !parsed.shifted {
        return None;
    }
    match (parsed.new_topic, parsed.at_message_index) {
        (Some(new_topic), Some(index)) => {
            if index < messages.len() {
                Some(TopicShift { at_message_id: messages[index].id, new_topic })
            } else {
                None
            }
        },
        _ => None,
    }
}

/// The first choice of a reply.
pub fn first_choice(choices: Vec<String>) -> (r: Result<String, Failure>)
    ensures
        if choices@.len() > 0 {
            r matches Ok(content) && content@ == choices@[0]@
        } else {
            r matches Err(failure) && failure@ == "no choices in response"@
        },
{
    let mut choices = choices;
    if choices.len() > 0 {
        Ok(choices.remove(0))
    } else {
        Err(Failure::new("no choices in response"))
    }
}

/// The first embedding of a reply.
pub fn first_embedding(data: Vec<Embedding>) -> (r: Result<Embedding, Failure>)
    ensures
        if data@.len() > 0 {
            r matches Ok(embedding) && embedding@ == data@[0]@
        } else {
            r matches Err(failure) && failure@ == "no embedding data in response"@
        },
{
    let mut data = data;
    if data.len() > 0 {
        Ok(data.remove(0))
    } else {
        Err(Failure::new("no embedding data in response"))
    }
}

/// The failure of a request that the service refused.
pub fn api_error(status: &str, body: &str) -> (r: Failure)
    ensures
        r@ == "API error "@ + status@ + ": "@ + body@,
{
    let mut message = "API error ".to_owned();
    message.append(status);
    message.append(": ");
    message.append(body);
    Failure { message }
}

/// The failure of a request that could not be made.
pub fn request_failed(error: &str) -> (r: Failure)
    ensures
        r@ == "request failed: "@ + error@,
{
    let mut message = "request failed: ".to_owned();
    message.append(error);
    Failure { message }
}

/// The failure of a reply that broke off.
pub fn stream_failed(error: &str) -> (r: Failure)
    ensures
        r@ == "stream error: "@ + error@,
{
    let mut message = "stream error: ".to_owned();
    message.append(error);
    Failure { message }
}

// ---------------------------------------------------------------------------
// Requests
// ---------------------------------------------------------------------------

/// A template of a registry rendered with variables; a template that is not
/// there renders as nothing.
pub open spec fn rendered_template(
    templates: Map<Seq<char>, Seq<char>>,
    name: Seq<char>,
    vars: Seq<(Seq<char>, Seq<char>)>,
) -> Result<Seq<char>, Seq<char>> {
    if templates.contains_key(name) {
        rendered(name, templates[name], vars)
    } else {
        Ok(Seq::empty())
    }
}

/// The variables of the system template: those that are there.
pub open spec fn system_vars(summary: Option<Seq<char>>, recalled: Option<Seq<char>>) -> Seq<
    (Seq<char>, Seq<char>),
> {
    let first = match summary {
        Some(text) => seq![("summary"@, text)],
        None => Seq::empty(),
    };
    match recalled {
        Some(text) => first.push(("recalled"@, text)),
        None => first,
    }
}

/// A tool on the wire.
pub open spec fn wire_tool(d: ToolDefinitionView) -> WireToolView {
    WireToolView {
        kind: "function"@,
        name: d.name,
        description: d.description,
        parameters: d.input_schema,
    }
}

/// A chat request with the given system prompt. An empty system prompt is
/// left out, and so are tools where there are none.
pub open spec fn chat_view(
    config: MistralConfigView,
    system: Seq<char>,
    messages: Seq<PromptMessageView>,
    tools: Seq<ToolDefinitionView>,
) -> RequestView {
    RequestView {
        model: config.chat_model,
        messages: if system.len() > 0 {
            seq![plain("system"@, system)]
        } else {
            Seq::empty()
        } + wire_messages(messages),
        stream: Some(true),
        response_format: None,
        temperature: None,
        tools: if tools.len() == 0 {
            None
        } else {
            Some(tools.map_values(|d: ToolDefinitionView| wire_tool(d)))
        },
        tool_choice: if tools.len() == 0 {
            None
        } else {
            Some("auto"@)
        },
    }
}

/// The system prompt, and with it all that is summarised or recalled, reaches
/// the service in a message of its own and nowhere else: behind it stand the
/// messages of the conversation alone, whatever the system prompt is.
pub proof fn law_recall_stays_in_the_system_message(
    config: MistralConfigView,
    system: Seq<char>,
    messages: Seq<PromptMessageView>,
    tools: Seq<ToolDefinitionView>,
)
    ensures
        ({
            let sent = chat_view(config, system, messages, tools).messages;
            if system.len() > 0 {
                sent[0] == plain("system"@, system) && sent.skip(1) == wire_messages(messages)
            } else {
                sent == wire_messages(messages)
            }
        }),
{
}

/// The model of summaries: the configured one, else the chat model.
pub open spec fn summarizer_of(config: MistralConfigView) -> Seq<char> {
    match config.summarizer_model {
        Some(model) => model,
        None => config.chat_model,
    }
}

/// The model of topic detection: the configured one, else the chat model.
pub open spec fn detector_of(config: MistralConfigView) -> Seq<char> {
    match config.topic_detector_model {
        Some(model) => model,
        None => config.chat_model,
    }
}

/// The model of embeddings: the configured one, else the default.
pub open spec fn embedder_of(config: MistralConfigView) -> Seq<char> {
    match config.embed_model {
        Some(model) => model,
        None => DEFAULT_EMBED_MODEL@,
    }
}

/// A request of one system prompt and one text.
pub open spec fn question(model: Seq<char>, system: Seq<char>, text: Seq<char>) -> RequestView {
    RequestView {
        model,
        messages: seq![plain("system"@, system), plain("user"@, text)],
        stream: None,
        response_format: None,
        temperature: None,
        tools: None,
        tool_choice: None,
    }
}

/// What a summary is told: the base prompt, and the fine tuning behind it
/// where there is any.
pub open spec fn summary_system(base: Seq<char>, fine: Seq<char>) -> Seq<char> {
    if fine.len() == 0 {
        base
    } else {
        base + "\n\n"@ + fine
    }
}

/// The template that tunes a summary, and its variables.
pub open spec fn tuning(request: SummaryRequestView) -> (Seq<char>, Seq<(Seq<char>, Seq<char>)>) {
    match request {
        SummaryRequestView::TopicShift { new_topic } => (
            "summarize_topic_shift"@,
            seq![("new_topic"@, new_topic)],
        ),
        SummaryRequestView::Compaction => ("summarize_compaction"@, Seq::empty()),
    }
}

/// A summary request, given its rendered prompts.
pub open spec fn summary_view(
    config: MistralConfigView,
    base: Seq<char>,
    fine: Seq<char>,
    messages: Seq<MessageView>,
) -> RequestView {
    question(
        summarizer_of(config),
        summary_system(base, fine),
        "Conversation to summarise:\n\n"@ + conversation_text(messages),
    )
}

/// A topic detection request, given its rendered prompt.
pub open spec fn shift_view(
    config: MistralConfigView,
    system: Seq<char>,
    messages: Seq<MessageView>,
) -> RequestView {
    RequestView {
        response_format: Some("json_object"@),
        temperature: Some(TOPIC_DETECTION_TEMPERATURE),
        ..question(
            detector_of(config),
            system,
            "Conversation:\n\n"@ + conversation_text(messages),
        )
    }
}

/// The wire form of a tool.
pub fn wire(d: &ToolDefinition) -> (r: MistralTool)
    ensures
        r@ == wire_tool(d@),
{
    MistralTool {
        kind: "function".to_owned(),
        function: MistralFunction {
            name: d.name.clone(),
            description: d.description.clone(),
            parameters: d.input_schema.clone(),
        },
    }
}

/// Builds the adapter's requests from its configuration and its templates.
#[derive(Debug)]
pub struct MistralClient<R: PromptRegistry> {
    pub config: MistralConfig,
    pub prompts: R,
}

impl<R: PromptRegistry> MistralClient<R> {
    pub fn new(config: MistralConfig, prompts: R) -> (r: Self)
        ensures
            r.config == config,
            r.prompts == prompts,
    {
        MistralClient { config, prompts }
    }

    pub fn chat_model(&self) -> (r: &str)
        ensures
            r@ == self.config@.chat_model,
    {
        self.config.chat_model.as_str()
    }

    pub fn summarizer_model(&self) -> (r: &str)
        ensures
            r@ == summarizer_of(self.config@),
    {
        match &self.config.summarizer_model {
            Some(model) => model.as_str(),
            None => self.config.chat_model.as_str(),
        }
    }

    pub fn topic_detector_model(&self) -> (r: &str)
        ensures
            r@ == detector_of(self.config@),
    {
        match &self.config.topic_detector_model {
            Some(model) => model.as_str(),
            None => self.config.chat_model.as_str(),
        }
    }

    pub fn embed_model(&self) -> (r: &str)
        ensures
            r@ == embedder_of(self.config@),
    {
        match &self.config.embed_model {
            Some(model) => model.as_str(),
            None => DEFAULT_EMBED_MODEL,
        }
    }

    /// The address of chat completions.
    pub fn chat_url(&self) -> (r: String)
        ensures
            r@ == self.config@.base_url + "/chat/completions"@,
    {
        let mut r = self.config.base_url.clone();
        r.append("/chat/completions");
        r
    }

    /// The address of embeddings.
    pub fn embed_url(&self) -> (r: String)
        ensures
            r@ == self.config@.base_url + "/embeddings"@,
    {
        let mut r = self.config.base_url.clone();
        r.append("/embeddings");
        r
    }

    fn render_named(&self, name: &str, vars: &[(&str, &str)]) -> (r: Result<String, Failure>)
        requires
            tame_under(self.prompts.templates(), name@),
        ensures
            outcome_view(r) == rendered_template(
                self.prompts.templates(),
                name@,
                crate::prompts::vars_view(vars@),
            ),
    {
        match self.prompts.get(name) {
            Some(template) => render(template, vars),
            None => Ok(String::new()),
        }
    }

    /// Renders the system template with the summary of prior context and the
    /// recalled summaries, as far as they are there.
    pub fn render_system(&self, summary: Option<&str>, recalled: Option<&str>) -> (r: Result<
        String,
        Failure,
    >)
        requires
            tame_under(self.prompts.templates(), "system"@),
        ensures
            outcome_view(r) == rendered_template(
                self.prompts.templates(),
                "system"@,
                system_vars(summary.deep_view(), recalled.deep_view()),
            ),
    {
        let mut vars: Vec<(&str, &str)> = Vec::new();
        match summary {
            Some(text) => {
                vars.push(("summary", text));
            },
            None => {},
        }
        match recalled {
            Some(text) => {
                vars.push(("recalled", text));
            },
            None => {},
        }
        assert(crate::prompts::vars_view(vars@) =~= system_vars(
            summary.deep_view(),
            recalled.deep_view(),
        ));
        self.render_named("system", vars.as_slice())
    }

    /// A streamed chat request with the given system prompt.
    pub fn chat_request(&self, system: String, prompt: &Prompt, tools: &Vec<ToolDefinition>) -> (r:
        MistralRequest)
        ensures
            r@ == chat_view(self.config@, system@, prompt@.messages, tools.deep_view()),
    {
        let ghost head = if system@.len() > 0 {
            seq![plain("system"@, system@)]
        } else {
            Seq::<WireMessageView>::empty()
        };
        let mut messages: Vec<MistralMessage> = Vec::new();
        if !system.as_str().is_empty() {
            messages.push(plain_message("system", system));
        }
        assert(messages.deep_view() =~= head);
        let ghost all = prompt.messages.deep_view();
        let mut i: usize = 0;
        assert(head + wire_messages(all.take(0)) =~= head);
        while i < prompt.messages.len()
            invariant
                i <= prompt.messages@.len(),
                all == prompt.messages.deep_view(),
                messages.deep_view() == head + wire_messages(all.take(i as int)),
            decreases prompt.messages@.len() - i,
        {
            proof {
                let next = all.take(i + 1);
                assert(next.drop_last() =~= all.take(i as int));
                assert(next.last() == prompt.messages@[i as int]@);
            }
            let mut more = render_message(&prompt.messages[i]);
            let ghost had = messages@;
            let ghost shown = messages.deep_view();
            let ghost added = more@;
            let ghost new = more.deep_view();
            messages.append(&mut more);
            assert(messages@ =~= had + added);
            assert(messages.deep_view() =~= shown + new);
            assert(shown + new =~= head + wire_messages(all.take(i + 1)));
            i += 1;
        }
        assert(all.take(i as int) =~= all);
        let mut offered: Vec<MistralTool> = Vec::new();
        let mut j: usize = 0;
        while j < tools.len()
            invariant
                j <= tools@.len(),
                offered@.len() == j,
                forall|k: int| 0 <= k < j ==> (#[trigger] offered@[k])@ == wire_tool(tools@[k]@),
            decreases tools@.len() - j,
        {
            offered.push(wire(&tools[j]));
            j += 1;
        }
        assert(offered.deep_view() =~= tools.deep_view().map_values(
            |d: ToolDefinitionView| wire_tool(d),
        ));
        let none = tools.len() == 0;
        MistralRequest {
            model: self.config.chat_model.clone(),
            messages,
            stream: Some(true),
            response_format: None,
            temperature: None,
            tools: if none {
                None
            } else {
                Some(offered)
            },
            tool_choice: if none {
                None
            } else {
                Some("auto".to_owned())
            },
        }
    }

    /// The request of a completion. It fails where the system template does.
    pub fn complete(&self, prompt: &Prompt, tools: &Vec<ToolDefinition>) -> (r: Result<
        MistralRequest,
        Failure,
    >)
        requires
            tame_under(self.prompts.templates(), "system"@),
        ensures
            match rendered_template(
                self.prompts.templates(),
                "system"@,
                system_vars(prompt@.summary, recalled_text(prompt@.recalled)),
            ) {
                Ok(system) => r matches Ok(request) && request@ == chat_view(
                    self.config@,
                    system,
                    prompt@.messages,
                    tools.deep_view(),
                ),
                Err(error) => r matches Err(failure) && failure@ == error,
            },
    {
        let recalled = render_recalled(&prompt.recalled);
        let summary_text = match &prompt.summary {
            Some(text) => Some(text.as_str()),
            None => None,
        };
        let recalled_part = match &recalled {
            Some(text) => Some(text.as_str()),
            None => None,
        };
        match self.render_system(summary_text, recalled_part) {
            Ok(system) => Ok(self.chat_request(system, prompt, tools)),
            Err(failure) => Err(failure),
        }
    }

    fn ask(&self, model: &str, system: String, text: String) -> (r: MistralRequest)
        ensures
            r@ == question(model@, system@, text@),
    {
        let ghost told = system@;
        let ghost asked = text@;
        let mut messages: Vec<MistralMessage> = Vec::new();
        messages.push(plain_message("system", system));
        messages.push(plain_message("user", text));
        assert(messages.deep_view() =~= question(model@, told, asked).messages);
        MistralRequest {
            model: model.to_owned(),
            messages,
            stream: None,
            response_format: None,
            temperature: None,
            tools: None,
            tool_choice: None,
        }
    }

    /// A summary request with the given prompts.
    pub fn summary_request(&self, base: String, fine: String, messages: &Vec<Message>) -> (r:
        MistralRequest)
        ensures
            r@ == summary_view(self.config@, base@, fine@, messages.deep_view()),
    {
        let conversation = format_messages(messages);
        let system = if fine.as_str().is_empty() {
            base
        } else {
            let mut system = base;
            system.append("\n\n");
            system.append(fine.as_str());
            system
        };
        let mut text = "Conversation to summarise:\n\n".to_owned();
        text.append(conversation.as_str());
        self.ask(self.summarizer_model(), system, text)
    }

    /// The request of a summary. It fails where one of its templates does.
    pub fn summarize(&self, messages: &Vec<Message>, request: &SummaryRequest) -> (r: Result<
        MistralRequest,
        Failure,
    >)
        requires
            tame_under(self.prompts.templates(), "summarize_base"@),
            tame_under(self.prompts.templates(), tuning(request@).0),
        ensures
            match rendered_template(
                self.prompts.templates(),
                "summarize_base"@,
                Seq::empty(),
            ) {
                Ok(base) => match rendered_template(
                    self.prompts.templates(),
                    tuning(request@).0,
                    tuning(request@).1,
                ) {
                    Ok(fine) => r matches Ok(made) && made@ == summary_view(
                        self.config@,
                        base,
                        fine,
                        messages.deep_view(),
                    ),
                    Err(error) => r matches Err(failure) && failure@ == error,
                },
                Err(error) => r matches Err(failure) && failure@ == error,
            },
    {
        let none: Vec<(&str, &str)> = Vec::new();
        assert(crate::prompts::vars_view(none@) =~= Seq::<(Seq<char>, Seq<char>)>::empty());
        let base = match self.render_named("summarize_base", none.as_slice()) {
            Ok(text) => text,
            Err(failure) => {
                return Err(failure);
            },
        };
        let fine = match request {
            SummaryRequest::TopicShift { new_topic } => {
                let mut vars: Vec<(&str, &str)> = Vec::new();
                vars.push(("new_topic", new_topic.as_str()));
                assert(crate::prompts::vars_view(vars@) =~= tuning(request@).1);
                self.render_named("summarize_topic_shift", vars.as_slice())
            },
            SummaryRequest::Compaction => self.render_named(
                "summarize_compaction",
                none.as_slice(),
            ),
        };
        match fine {
            Ok(fine) => Ok(self.summary_request(base, fine, messages)),
            Err(failure) => Err(failure),
        }
    }

    /// A topic detection request with the given system prompt.
    pub fn shift_request(&self, system: String, messages: &Vec<Message>) -> (r: MistralRequest)
        ensures
            r@ == shift_view(self.config@, system@, messages.deep_view()),
    {
        let conversation = format_messages(messages);
        let mut text = "Conversation:\n\n".to_owned();
        text.append(conversation.as_str());
        let mut request = self.ask(self.topic_detector_model(), system, text);
        request.response_format = Some("json_object".to_owned());
        request.temperature = Some(TOPIC_DETECTION_TEMPERATURE);
        request
    }

    /// The request of a topic detection: none for fewer than two messages,
    /// which cannot shift. It fails where its template does.
    pub fn detect_shift(&self, messages: &Vec<Message>) -> (r: Result<
        Option<MistralRequest>,
        Failure,
    >)
        requires
            messages@.len() >= 2 ==> tame_under(
                self.prompts.templates(),
                "detect_topic_shift"@,
            ),
        ensures
            if messages@.len() < 2 {
                r matches Ok(None)
            } else {
                match rendered_template(
                    self.prompts.templates(),
                    "detect_topic_shift"@,
                    Seq::empty(),
                ) {
                    Ok(system) => r matches Ok(Some(request)) && request@ == shift_view(
                        self.config@,
                        system,
                        messages.deep_view(),
                    ),
                    Err(error) => r matches Err(failure) && failure@ == error,
                }
            },
    {
        if messages.len() < 2 {
            return Ok(None);
        }
        let none: Vec<(&str, &str)> = Vec::new();
        assert(crate::prompts::vars_view(none@) =~= Seq::<(Seq<char>, Seq<char>)>::empty());
        match self.render_named("detect_topic_shift", none.as_slice()) {
            Ok(system) => Ok(Some(self.shift_request(system, messages))),
            Err(failure) => Err(failure),
        }
    }

    /// The request of an embedding.
    pub fn embed(&self, text: &str) -> (r: EmbedRequest)
        ensures
            r.model@ == embedder_of(self.config@),
            r.input.deep_view() == seq![text@],
    {
        let mut input: Vec<String> = Vec::new();
        input.push(text.to_owned());
        assert(input.deep_view() =~= seq![text@]);
        EmbedRequest { model: self.embed_model().to_owned(), input }
    }

    /// What is left of the context window for a prompt.
    pub fn remaining_capacity(&self, prompt: &Prompt) -> (r: usize)
        ensures
            r == REMAINING_CAPACITY,
    {
        REMAINING_CAPACITY
    }
}

} // verus!
