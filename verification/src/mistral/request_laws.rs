//! What a request holds of what it was made from, and what a reply comes to.

use vstd::prelude::*;

use crate::json::{compact_json, compact_of, is_document};
use crate::language_model::PromptMessageView;
use crate::mistral::client::{
    chat_view, conversation_text, detector_of, embedder_of, kept_summaries, payload_text,
    recalled_text, rendered_template, shift_of, shift_view, summarizer_of, summary_view,
    system_vars, tuning, wire_calls, wire_messages, wire_of, wire_results, wire_texts,
    MistralRequest, WireCallView, WireMessageView, MISTRAL_EMBED_DIMENSION, REMAINING_CAPACITY,
};
use crate::mistral::{MistralConfigView, BASE_URL};
use crate::models::message::{text_of, ContentView, MessageView, Role};
use crate::prompts::rendered;
use crate::summarizer::SummaryRequestView;
use crate::surreal::store::EMBED_DIMENSION;
use crate::text::{is_white, joined, trimmed};
use crate::text_laws::{
    law_separator_stands_between_parts, law_trimming_takes_the_white_space_at_the_ends,
};
use crate::tool::{ToolDefinition, ToolDefinitionView};

verus! {

// ---------------------------------------------------------------------------
// Chat requests
// ---------------------------------------------------------------------------

/// A chat request offers as many tools as it was given, each at its place and
/// each with the name, the description and the schema of its definition; it
/// leaves the choice to the model. Where it was given none it offers none.
pub proof fn law_every_tool_is_offered(
    config: MistralConfigView,
    system: Seq<char>,
    messages: Seq<PromptMessageView>,
    tools: Seq<ToolDefinitionView>,
)
    ensures
        ({
            let request = chat_view(config, system, messages, tools);
            if tools.len() == 0 {
                request.tools is None && request.tool_choice is None
            } else {
                &&& request.tools is Some
                &&& request.tools->0.len() == tools.len()
                &&& forall|i: int|
                    #![trigger tools[i]]
                    #![trigger request.tools->0[i]]
                    0 <= i < tools.len() ==> {
                        let offered = request.tools->0[i];
                        &&& offered.kind == "function"@
                        &&& offered.name == tools[i].name
                        &&& offered.description == tools[i].description
                        &&& offered.parameters == tools[i].input_schema
                    }
                &&& request.tool_choice == Some("auto"@)
            }
        }),
{
}

/// The request that the adapter makes offers the very definitions that it was
/// handed, field by field.
pub proof fn law_request_offers_the_definitions(
    config: MistralConfigView,
    system: Seq<char>,
    messages: Seq<PromptMessageView>,
    tools: Vec<ToolDefinition>,
    request: MistralRequest,
)
    requires
        request@ == chat_view(config, system, messages, tools.deep_view()),
        tools@.len() > 0,
    ensures
        request.tools is Some,
        request.tools->0@.len() == tools@.len(),
        forall|i: int|
            0 <= i < tools@.len() ==> {
                let offered = #[trigger] request.tools->0@[i];
                &&& offered.function.name@ == tools@[i].name@
                &&& offered.function.description@ == tools@[i].description@
                &&& offered.function.parameters@ == tools@[i].input_schema@
            },
{
    law_every_tool_is_offered(config, system, messages, tools.deep_view());
    let offered = request.tools->0;
    assert(request@.tools == Some(offered.deep_view()));
    assert forall|i: int| 0 <= i < tools@.len() implies {
        let o = #[trigger] offered@[i];
        &&& o.function.name@ == tools@[i].name@
        &&& o.function.description@ == tools@[i].description@
        &&& o.function.parameters@ == tools@[i].input_schema@
    } by {
        assert(tools.deep_view()[i] == tools@[i]@);
        assert(offered.deep_view()[i] == offered@[i]@);
    }
}

/// A chat request is put to the chat model and answered in a stream, in free
/// form and at the model's own temperature.
pub proof fn law_chat_model_answers_in_a_stream(
    config: MistralConfigView,
    system: Seq<char>,
    messages: Seq<PromptMessageView>,
    tools: Seq<ToolDefinitionView>,
)
    ensures
        ({
            let request = chat_view(config, system, messages, tools);
            &&& request.model == config.chat_model
            &&& request.stream == Some(true)
            &&& request.response_format is None
            &&& request.temperature is None
        }),
{
}

/// A message of one text and nothing else.
pub open spec fn says(m: WireMessageView, role: Seq<char>, text: Seq<char>) -> bool {
    &&& m.role == role
    &&& m.content == Some(text)
    &&& m.tool_calls is None
    &&& m.tool_call_id is None
    &&& m.name is None
}

/// A system prompt that says something is the first message of a chat request.
pub proof fn law_system_prompt_comes_first(
    config: MistralConfigView,
    system: Seq<char>,
    messages: Seq<PromptMessageView>,
    tools: Seq<ToolDefinitionView>,
)
    requires
        system.len() > 0,
    ensures
        ({
            let sent = chat_view(config, system, messages, tools).messages;
            &&& sent.len() > 0
            &&& says(sent[0], "system"@, system)
        }),
{
}

/// What is sent for messages is what is sent for the first of them, followed
/// by what is sent for the others: nothing is left out, and the order is kept.
pub proof fn law_messages_are_sent_in_order(
    a: Seq<PromptMessageView>,
    b: Seq<PromptMessageView>,
    config: MistralConfigView,
    system: Seq<char>,
    tools: Seq<ToolDefinitionView>,
)
    ensures
        wire_messages(a + b) == wire_messages(a) + wire_messages(b),
        chat_view(config, system, a + b, tools).messages == chat_view(
            config,
            system,
            a,
            tools,
        ).messages + wire_messages(b),
    decreases b.len(),
{
    if b.len() == 0 {
        assert(a + b =~= a);
        assert(wire_messages(a) + wire_messages(b) =~= wire_messages(a));
    } else {
        assert((a + b).drop_last() =~= a + b.drop_last());
        law_messages_are_sent_in_order(a, b.drop_last(), config, system, tools);
        assert(wire_messages(a + b) =~= wire_messages(a) + wire_messages(b));
    }
    assert(chat_view(config, system, a + b, tools).messages =~= chat_view(
        config,
        system,
        a,
        tools,
    ).messages + wire_messages(b));
}

proof fn lemma_one_content(role: Role, c: ContentView)
    ensures
        wire_texts(role, seq![c]) == match c {
            ContentView::Text { text } => seq![
                crate::mistral::client::plain(role.word(), text),
            ],
            ContentView::TemporalUpdate { timestamp } => seq![
                crate::mistral::client::plain(
                    "user"@,
                    crate::mistral::client::time_note(timestamp),
                ),
            ],
            _ => Seq::<WireMessageView>::empty(),
        },
        wire_calls(seq![c]) == match c {
            ContentView::ToolCall { id, name, input } => seq![
                WireCallView { id, kind: "function"@, name, arguments: compact_of(input) },
            ],
            _ => Seq::<WireCallView>::empty(),
        },
        wire_results(seq![c]) == match c {
            ContentView::ToolResult { id, output, is_error } => seq![
                WireMessageView {
                    tool_call_id: Some(id),
                    ..crate::mistral::client::plain("tool"@, output)
                },
            ],
            _ => Seq::<WireMessageView>::empty(),
        },
{
    assert(seq![c].drop_last() =~= Seq::<ContentView>::empty());
    reveal_with_fuel(wire_texts, 2);
    reveal_with_fuel(wire_calls, 2);
    reveal_with_fuel(wire_results, 2);
}

/// A message of one piece: a text is said in the role of the message, a note
/// of the time in that of the user, a call is made by the assistant with its
/// input as compact JSON, and a result is said by the tool and names its call.
pub proof fn law_piece_is_sent_as_what_it_is(role: Role, c: ContentView)
    ensures
        ({
            let sent = wire_of(PromptMessageView { role, content: seq![c] });
            &&& sent.len() == 1
            &&& match c {
                ContentView::Text { text } => says(
                    sent[0],
                    match role {
                        Role::User => "user"@,
                        Role::Assistant => "assistant"@,
                        Role::System => "system"@,
                    },
                    text,
                ),
                ContentView::TemporalUpdate { timestamp } => says(
                    sent[0],
                    "user"@,
                    "<temporal_update>"@ + timestamp + "</temporal_update>"@,
                ),
                ContentView::ToolCall { id, name, input } => {
                    &&& sent[0].role == "assistant"@
                    &&& sent[0].content is None
                    &&& sent[0].tool_call_id is None
                    &&& sent[0].tool_calls is Some
                    &&& sent[0].tool_calls->0.len() == 1
                    &&& sent[0].tool_calls->0[0].id == id
                    &&& sent[0].tool_calls->0[0].kind == "function"@
                    &&& sent[0].tool_calls->0[0].name == name
                    &&& is_document(input) ==> Some(sent[0].tool_calls->0[0].arguments)
                        == compact_json(input)
                },
                ContentView::ToolResult { id, output, is_error } => {
                    &&& sent[0].role == "tool"@
                    &&& sent[0].content == Some(output)
                    &&& sent[0].tool_calls is None
                    &&& sent[0].tool_call_id == Some(id)
                },
            }
        }),
{
    lemma_one_content(role, c);
}

proof fn lemma_contents_concat(role: Role, a: Seq<ContentView>, b: Seq<ContentView>)
    ensures
        wire_texts(role, a + b) == wire_texts(role, a) + wire_texts(role, b),
        wire_calls(a + b) == wire_calls(a) + wire_calls(b),
        wire_results(a + b) == wire_results(a) + wire_results(b),
    decreases b.len(),
{
    if b.len() == 0 {
        assert(a + b =~= a);
    } else {
        assert((a + b).drop_last() =~= a + b.drop_last());
        lemma_contents_concat(role, a, b.drop_last());
    }
    assert(wire_texts(role, a + b) =~= wire_texts(role, a) + wire_texts(role, b));
    assert(wire_calls(a + b) =~= wire_calls(a) + wire_calls(b));
    assert(wire_results(a + b) =~= wire_results(a) + wire_results(b));
}

/// Every text of a message is sent, whatever stands around it.
pub proof fn law_every_text_is_sent(
    role: Role,
    before: Seq<ContentView>,
    text: Seq<char>,
    after: Seq<ContentView>,
)
    ensures
        ({
            let sent = wire_of(
                PromptMessageView {
                    role,
                    content: before + seq![ContentView::Text { text }] + after,
                },
            );
            let at = wire_texts(role, before).len() as int;
            &&& at < sent.len()
            &&& says(
                sent[at],
                match role {
                    Role::User => "user"@,
                    Role::Assistant => "assistant"@,
                    Role::System => "system"@,
                },
                text,
            )
        }),
{
    let c = ContentView::Text { text };
    lemma_one_content(role, c);
    lemma_contents_concat(role, before, seq![c]);
    lemma_contents_concat(role, before + seq![c], after);
}

/// The calls that a message makes are all made in one message, in order, and
/// in front of the results.
pub proof fn law_calls_are_made_in_one_message(
    role: Role,
    before: Seq<ContentView>,
    id: Seq<char>,
    name: Seq<char>,
    input: Seq<char>,
    after: Seq<ContentView>,
)
    ensures
        ({
            let content = before + seq![ContentView::ToolCall { id, name, input }] + after;
            let sent = wire_of(PromptMessageView { role, content });
            let at = wire_texts(role, content).len() as int;
            let place = wire_calls(before).len() as int;
            &&& at < sent.len()
            &&& sent[at].tool_calls is Some
            &&& place < sent[at].tool_calls->0.len()
            &&& sent[at].tool_calls->0[place].id == id
            &&& sent[at].tool_calls->0[place].name == name
            &&& sent.skip(at + 1) == wire_results(content)
        }),
{
    let c = ContentView::ToolCall { id, name, input };
    let content = before + seq![c] + after;
    lemma_one_content(role, c);
    lemma_contents_concat(role, before, seq![c]);
    lemma_contents_concat(role, before + seq![c], after);
    let sent = wire_of(PromptMessageView { role, content });
    let at = wire_texts(role, content).len() as int;
    assert(wire_calls(content).len() > 0);
    assert(sent.skip(at + 1) =~= wire_results(content));
}

/// Every result of a message is sent, with the call it answers and its output.
pub proof fn law_every_result_is_sent(
    role: Role,
    before: Seq<ContentView>,
    id: Seq<char>,
    output: Seq<char>,
    is_error: bool,
    after: Seq<ContentView>,
)
    ensures
        ({
            let content = before + seq![ContentView::ToolResult { id, output, is_error }] + after;
            let sent = wire_of(PromptMessageView { role, content });
            let at = sent.len() - wire_results(after).len() - 1;
            &&& 0 <= at < sent.len()
            &&& sent[at].role == "tool"@
            &&& sent[at].content == Some(output)
            &&& sent[at].tool_call_id == Some(id)
        }),
{
    let c = ContentView::ToolResult { id, output, is_error };
    lemma_one_content(role, c);
    lemma_contents_concat(role, before, seq![c]);
    lemma_contents_concat(role, before + seq![c], after);
}

/// The model is told the summary and what was recalled, each under its name,
/// and nothing where there is none.
pub proof fn law_template_is_given_what_is_there(
    summary: Option<Seq<char>>,
    recalled: Option<Seq<char>>,
)
    ensures
        ({
            let vars = system_vars(summary, recalled);
            &&& forall|i: int|
                0 <= i < vars.len() ==> {
                    ||| (#[trigger] vars[i]).0 == "summary"@ && summary == Some(vars[i].1)
                    ||| vars[i].0 == "recalled"@ && recalled == Some(vars[i].1)
                }
            &&& summary is Some ==> vars.contains(("summary"@, summary->0))
            &&& recalled is Some ==> vars.contains(("recalled"@, recalled->0))
        }),
{
    let vars = system_vars(summary, recalled);
    if summary is Some {
        assert(vars[0] == ("summary"@, summary->0));
    }
    if recalled is Some {
        assert(vars.last() == ("recalled"@, recalled->0));
    }
}

// ---------------------------------------------------------------------------
// Recalled summaries
// ---------------------------------------------------------------------------

proof fn lemma_kept_concat(a: Seq<Seq<char>>, b: Seq<Seq<char>>)
    ensures
        kept_summaries(a + b) == kept_summaries(a) + kept_summaries(b),
    decreases b.len(),
{
    if b.len() == 0 {
        assert(a + b =~= a);
    } else {
        assert((a + b).drop_last() =~= a + b.drop_last());
        lemma_kept_concat(a, b.drop_last());
    }
    assert(kept_summaries(a + b) =~= kept_summaries(a) + kept_summaries(b));
}

/// Summaries that are recalled together are told one after the other, with a
/// rule between what the first come to and what the others come to; what
/// comes to nothing has no rule.
pub proof fn law_recalled_summaries_are_all_told(a: Seq<Seq<char>>, b: Seq<Seq<char>>)
    ensures
        recalled_text(a + b) == match (recalled_text(a), recalled_text(b)) {
            (Some(first), Some(second)) => Some(first + "\n\n---\n\n"@ + second),
            (Some(first), None) => Some(first),
            (None, Some(second)) => Some(second),
            (None, None) => None,
        },
{
    lemma_kept_concat(a, b);
    let ka = kept_summaries(a);
    let kb = kept_summaries(b);
    law_separator_stands_between_parts(ka, kb, Seq::empty(), "\n\n---\n\n"@);
    if ka.len() == 0 {
        assert(ka + kb =~= kb);
    }
    if kb.len() == 0 {
        assert(ka + kb =~= ka);
    }
}

/// One recalled summary is told without the white space around it, and not
/// told where it is nothing else.
pub proof fn law_one_summary_is_told_trimmed(summary: Seq<char>)
    ensures
        (forall|i: int| 0 <= i < summary.len() ==> is_white(#[trigger] summary[i]))
            ==> recalled_text(seq![summary]) is None,
        (exists|i: int| 0 <= i < summary.len() && !is_white(#[trigger] summary[i]))
            ==> recalled_text(seq![summary]) == Some(trimmed(summary)),
        recalled_text(Seq::empty()) is None,
{
    assert(seq![summary].drop_last() =~= Seq::<Seq<char>>::empty());
    reveal_with_fuel(kept_summaries, 2);
    law_trimming_takes_the_white_space_at_the_ends(summary);
    let (a, b) = choose|a: int, b: int|
        #![trigger summary.subrange(a, b)]
        {
            &&& 0 <= a <= b <= summary.len()
            &&& trimmed(summary) == summary.subrange(a, b)
            &&& forall|i: int| 0 <= i < a ==> is_white(#[trigger] summary[i])
            &&& forall|i: int| b <= i < summary.len() ==> is_white(#[trigger] summary[i])
            &&& a < b ==> !is_white(summary[a]) && !is_white(summary[b - 1])
        };
    assert(trimmed(summary).len() == b - a);
    if a < b {
        assert(kept_summaries(seq![summary]) =~= seq![trimmed(summary)]);
    } else {
        assert(kept_summaries(seq![summary]) =~= Seq::<Seq<char>>::empty());
        assert forall|i: int| 0 <= i < summary.len() implies is_white(#[trigger] summary[i]) by {
            if i < a {
            } else {
                assert(b <= i);
            }
        }
    }
}

// ---------------------------------------------------------------------------
// Conversations
// ---------------------------------------------------------------------------

/// What a message says is the texts of its pieces, one after the other; a
/// piece that is no text says nothing.
pub proof fn law_message_says_its_texts(a: Seq<ContentView>, b: Seq<ContentView>, c: ContentView)
    ensures
        text_of(a + b) == text_of(a) + text_of(b),
        text_of(seq![c]) == match c {
            ContentView::Text { text } => text,
            _ => Seq::<char>::empty(),
        },
    decreases b.len(),
{
    if b.len() == 0 {
        assert(a + b =~= a);
    } else {
        assert((a + b).drop_last() =~= a + b.drop_last());
        law_message_says_its_texts(a, b.drop_last(), c);
    }
    assert(text_of(a + b) =~= text_of(a) + text_of(b));
    assert(seq![c].drop_last() =~= Seq::<ContentView>::empty());
    reveal_with_fuel(text_of, 2);
    assert(text_of(seq![c]) =~= crate::models::message::piece_text(c));
}

/// What a conversation text holds between its tags.
pub open spec fn told(inner: Seq<char>) -> Seq<char> {
    "<conversation>\n"@ + inner + "\n</conversation>"@
}

/// How a message is told: what it says, between tags that name its role.
pub open spec fn turn_of(m: MessageView) -> Seq<char> {
    let word = match m.role {
        Role::User => "user"@,
        Role::Assistant => "assistant"@,
        Role::System => "system"@,
    };
    "<"@ + word + ">\n"@ + text_of(m.content) + "\n</"@ + word + ">"@
}

/// A conversation is told message by message, in order: one message alone is
/// its turn, and one more message is its turn behind all the others.
pub proof fn law_conversation_is_told_in_order(messages: Seq<MessageView>, m: MessageView)
    ensures
        conversation_text(seq![m]) == told(turn_of(m)),
        messages.len() > 0 ==> exists|inner: Seq<char>|
            conversation_text(messages) == #[trigger] told(inner) && conversation_text(
                messages.push(m),
            ) == told(inner + "\n\n"@ + turn_of(m)),
{
    let block = |m: MessageView| crate::mistral::client::conversation_block(m);
    assert(seq![m].map_values(block) =~= seq![turn_of(m)]);
    let a = messages.map_values(block);
    assert(messages.push(m).map_values(block) =~= a + seq![turn_of(m)]);
    law_separator_stands_between_parts(a, seq![turn_of(m)], turn_of(m), "\n\n"@);
    assert(conversation_text(messages) == told(joined(a, "\n\n"@)));
}

/// The log shows each message with its role in front, in order.
pub proof fn law_payload_is_logged_in_order(messages: Seq<WireMessageView>, m: WireMessageView)
    ensures
        ({
            let text = match m.content {
                Some(text) => text,
                None => Seq::empty(),
            };
            let block = "["@ + m.role + "]\n"@ + text;
            &&& payload_text(seq![m]) == block
            &&& messages.len() > 0 ==> payload_text(messages.push(m)) == payload_text(messages)
                + "\n\n"@ + block
        }),
{
    let block = |m: WireMessageView| crate::mistral::client::payload_block(m);
    let one = crate::mistral::client::payload_block(m);
    assert(seq![m].map_values(block) =~= seq![one]);
    let a = messages.map_values(block);
    assert(messages.push(m).map_values(block) =~= a + seq![one]);
    law_separator_stands_between_parts(a, seq![one], one, "\n\n"@);
}

// ---------------------------------------------------------------------------
// Summaries and topics
// ---------------------------------------------------------------------------

/// The configured models are asked, and the chat model where none is
/// configured; embeddings have a default of their own.
pub proof fn law_configured_models_are_asked(config: MistralConfigView)
    ensures
        config.summarizer_model is Some ==> summarizer_of(config) == config.summarizer_model->0,
        config.summarizer_model is None ==> summarizer_of(config) == config.chat_model,
        config.topic_detector_model is Some ==> detector_of(config)
            == config.topic_detector_model->0,
        config.topic_detector_model is None ==> detector_of(config) == config.chat_model,
        config.embed_model is Some ==> embedder_of(config) == config.embed_model->0,
        config.embed_model is None ==> embedder_of(config) == "mistral-embed"@,
{
}

/// What the adapter stands for where the service does not say: the address of
/// the service, how much room a prompt has left, and the dimension of a
/// vector, which is the one that vectors are stored with.
pub proof fn law_adapter_fits_service_and_store()
    ensures
        BASE_URL@ == "https://api.mistral.ai/v1"@,
        REMAINING_CAPACITY == 4096,
        MISTRAL_EMBED_DIMENSION == 1024,
        MISTRAL_EMBED_DIMENSION == EMBED_DIMENSION,
{
}

/// A template that is there is rendered with its variables, and one that is
/// not there says nothing.
pub proof fn law_missing_template_says_nothing(
    templates: Map<Seq<char>, Seq<char>>,
    name: Seq<char>,
    vars: Seq<(Seq<char>, Seq<char>)>,
)
    ensures
        templates.contains_key(name) ==> rendered_template(templates, name, vars) == rendered(
            name,
            templates[name],
            vars,
        ),
        !templates.contains_key(name) ==> rendered_template(templates, name, vars) == Ok::<
            Seq<char>,
            Seq<char>,
        >(Seq::empty()),
{
}

/// A summary is asked of the summary model, at once and without tools: what it
/// is told is the base prompt and the tuning behind it, and what it is shown is
/// the whole conversation.
pub proof fn law_summary_is_asked_of_the_whole_conversation(
    config: MistralConfigView,
    base: Seq<char>,
    fine: Seq<char>,
    messages: Seq<MessageView>,
)
    ensures
        ({
            let request = summary_view(config, base, fine, messages);
            &&& request.model == summarizer_of(config)
            &&& request.messages.len() == 2
            &&& fine.len() > 0 ==> says(request.messages[0], "system"@, base + "\n\n"@ + fine)
            &&& fine.len() == 0 ==> says(request.messages[0], "system"@, base)
            &&& says(
                request.messages[1],
                "user"@,
                "Conversation to summarise:\n\n"@ + conversation_text(messages),
            )
            &&& request.stream is None && request.tools is None && request.tool_choice is None
            &&& request.response_format is None && request.temperature is None
        }),
{
}

/// A topic shift is asked of the detector model, with an answer in JSON and
/// without chance, over the whole conversation.
pub proof fn law_shift_is_asked_of_the_whole_conversation(
    config: MistralConfigView,
    system: Seq<char>,
    messages: Seq<MessageView>,
)
    ensures
        ({
            let request = shift_view(config, system, messages);
            &&& request.model == detector_of(config)
            &&& request.messages.len() == 2
            &&& says(request.messages[0], "system"@, system)
            &&& says(
                request.messages[1],
                "user"@,
                "Conversation:\n\n"@ + conversation_text(messages),
            )
            &&& request.response_format == Some("json_object"@)
            &&& request.temperature == Some(0u32)
            &&& request.stream is None && request.tools is None && request.tool_choice is None
        }),
{
}

/// A summary is tuned for what asked for it: one that a topic shift asked for
/// is told the new topic.
pub proof fn law_tuning_names_the_new_topic(new_topic: Seq<char>)
    ensures
        tuning(SummaryRequestView::TopicShift { new_topic }).0 == "summarize_topic_shift"@,
        tuning(SummaryRequestView::TopicShift { new_topic }).1 == seq![("new_topic"@, new_topic)],
        tuning(SummaryRequestView::Compaction).0 == "summarize_compaction"@,
        tuning(SummaryRequestView::Compaction).1.len() == 0,
{
}

/// An answer reports a shift exactly if it says so, names a topic and points
/// at one of the messages; the shift is then at that very message.
pub proof fn law_shift_is_at_the_message_pointed_at(
    messages: Seq<MessageView>,
    shifted: bool,
    new_topic: Option<Seq<char>>,
    at: Option<usize>,
)
    ensures
        ({
            let shift = shift_of(messages, shifted, new_topic, at);
            &&& shift is Some <==> shifted && new_topic is Some && at is Some && at->0
                < messages.len()
            &&& shift is Some ==> shift->0.at_message_id == messages[at->0 as int].id
                && Some(shift->0.new_topic) == new_topic
        }),
{
}

} // verus!
