use brain::json::Json;
use brain::language_model::{AssistantEvent, Prompt, PromptMessage, ToolCall};
use brain::mistral::client::{
    api_error, first_choice, first_embedding, format_messages, render_message, render_recalled,
    request_failed, stream_failed, topic_shift_from_response, wire, MistralClient, ShiftResponse,
    DEFAULT_EMBED_MODEL, MISTRAL_EMBED_DIMENSION, TOPIC_DETECTION_TEMPERATURE,
};
use brain::mistral::stream::{
    Accumulator, Delta, EventReader, Frame, FunctionCallDelta, Reading, ToolCallDelta,
};
use brain::mistral::MistralConfig;
use brain::models::message::{Content, Message, MessageId, Role};
use brain::prompts_embedded::EmbeddedPromptRegistry;
use brain::summarizer::SummaryRequest;
use brain::testing::prompt_registry::MockPromptRegistry;
use brain::time::Timestamp;
use brain::tool::ToolDefinition;

fn test_client() -> MistralClient<EmbeddedPromptRegistry> {
    MistralClient::new(
        MistralConfig::new("test-key", "mistral-small-latest"),
        EmbeddedPromptRegistry::new(),
    )
}

#[test]
fn render_system_includes_recalled_block_when_recalled_text_is_supplied() {
    let client = test_client();
    let system = client
        .render_system(
            Some("Current branch summary"),
            Some("Earlier related summary"),
        )
        .unwrap();

    assert!(system.contains(
        "<earlier_conversation_context>\nCurrent branch summary\n</earlier_conversation_context>"
    ));
    assert!(system.contains("<recalled_conversation_context>"));
    assert!(system.contains("Earlier related summary"));
    assert!(system.contains("Use this as silent background knowledge."));
    assert!(system.contains("Do not announce that recall happened"));
    assert!(system.contains("</recalled_conversation_context>"));
}

#[test]
fn render_system_omits_recalled_block_when_recalled_text_is_absent() {
    let client = test_client();
    let system = client
        .render_system(Some("Current branch summary"), None)
        .unwrap();

    assert!(system.contains("<earlier_conversation_context>"));
    assert!(!system.contains("<recalled_conversation_context>"));
    assert!(!system.contains("silent background knowledge"));
    assert!(!system.contains("Do not announce that recall happened"));
}

#[test]
fn render_recalled_joins_non_empty_summaries_as_one_template_var() {
    let recalled = render_recalled(&vec![
        " First summary ".to_string(),
        "".to_string(),
        "Second summary".to_string(),
    ])
    .unwrap();

    assert_eq!(recalled, "First summary\n\n---\n\nSecond summary");
}

#[test]
fn render_recalled_of_blank_summaries_is_none() {
    assert!(render_recalled(&vec![]).is_none());
    assert!(render_recalled(&vec!["  ".to_string()]).is_none());
}

fn test_message(role: Role, text: &str) -> Message {
    Message {
        id: MessageId::new(),
        role,
        content: vec![Content::Text {
            text: text.to_string(),
        }],
        timestamp: Timestamp::now(),
    }
}

#[test]
fn format_messages_uses_xml_like_conversation_blocks() {
    let formatted = format_messages(&vec![
        test_message(Role::User, "hello"),
        test_message(Role::Assistant, "hi"),
    ]);

    assert_eq!(
        formatted,
        "<conversation>\n<user>\nhello\n</user>\n\n<assistant>\nhi\n</assistant>\n</conversation>"
    );
}

#[test]
fn topic_shift_response_maps_valid_index_to_message_id() {
    let first = test_message(Role::User, "old topic");
    let second = test_message(Role::Assistant, "old answer");
    let third = test_message(Role::User, "new topic");
    let messages = vec![first, second, third.clone()];

    let shift = topic_shift_from_response(
        &messages,
        ShiftResponse {
            shifted: true,
            new_topic: Some("new topic".to_string()),
            at_message_index: Some(2),
        },
    )
    .expect("expected valid shift");

    assert_eq!(shift.at_message_id, third.id);
    assert_eq!(shift.new_topic, "new topic");
}

#[test]
fn topic_shift_response_ignores_out_of_bounds_index() {
    let messages = vec![
        test_message(Role::User, "old topic"),
        test_message(Role::Assistant, "old answer"),
        test_message(Role::User, "new topic"),
    ];

    let shift = topic_shift_from_response(
        &messages,
        ShiftResponse {
            shifted: true,
            new_topic: Some("new topic".to_string()),
            at_message_index: Some(4),
        },
    );

    assert!(shift.is_none());
}

#[test]
fn topic_shift_response_ignores_missing_shift_fields() {
    let messages = vec![test_message(Role::User, "old topic")];

    assert!(topic_shift_from_response(
        &messages,
        ShiftResponse {
            shifted: true,
            new_topic: None,
            at_message_index: Some(0),
        },
    )
    .is_none());
    assert!(topic_shift_from_response(
        &messages,
        ShiftResponse {
            shifted: true,
            new_topic: Some("new topic".to_string()),
            at_message_index: None,
        },
    )
    .is_none());
}

#[test]
fn topic_shift_response_ignores_a_stated_stay() {
    let messages = vec![test_message(Role::User, "old topic")];
    assert!(topic_shift_from_response(
        &messages,
        ShiftResponse {
            shifted: false,
            new_topic: Some("new topic".to_string()),
            at_message_index: Some(0),
        },
    )
    .is_none());
}

fn search_definition(schema: &str) -> ToolDefinition {
    ToolDefinition {
        name: "web_search".to_string(),
        description: "Search the web".to_string(),
        input_schema: Json::parse(schema).unwrap(),
    }
}

#[test]
fn tool_definition_serialises_into_mistral_function_shape() {
    let def = search_definition(
        r#"{"type":"object","properties":{"query":{"type":"string"}},"required":["query"]}"#,
    );
    let wire = wire(&def);
    let parameters: serde_json::Value =
        serde_json::from_str(wire.function.parameters.source()).unwrap();

    assert_eq!(wire.kind, "function");
    assert_eq!(wire.function.name, "web_search");
    assert_eq!(wire.function.description, "Search the web");
    assert_eq!(parameters["type"], "object");
    assert_eq!(parameters["required"][0], "query");
}

fn prompt_of(messages: Vec<PromptMessage>) -> Prompt {
    Prompt {
        summary: None,
        recalled: Vec::new(),
        messages,
    }
}

fn spoken(role: Role, text: &str) -> PromptMessage {
    PromptMessage {
        role,
        content: vec![Content::Text {
            text: text.to_string(),
        }],
    }
}

#[test]
fn completion_offers_tools_when_there_are_any() {
    let client = test_client();
    let prompt = prompt_of(vec![spoken(Role::User, "hello")]);
    let tools = vec![search_definition(r#"{"type":"object"}"#)];

    let request = client.complete(&prompt, &tools).unwrap();
    assert_eq!(request.model, "mistral-small-latest");
    assert_eq!(request.stream, Some(true));
    assert_eq!(request.tool_choice.as_deref(), Some("auto"));
    assert_eq!(request.tools.unwrap()[0].function.name, "web_search");
    assert_eq!(request.messages.len(), 2);
    assert_eq!(request.messages[0].role, "system");
    assert_eq!(request.messages[1].content.as_deref(), Some("hello"));

    let bare = client.complete(&prompt, &vec![]).unwrap();
    assert!(bare.tools.is_none());
    assert!(bare.tool_choice.is_none());
    assert!(bare.temperature.is_none());
}

#[test]
fn completion_keeps_recall_in_the_system_message() {
    let client = test_client();
    let prompt = Prompt {
        summary: Some("where we are".to_string()),
        recalled: vec!["an older thread".to_string()],
        messages: vec![spoken(Role::User, "hello")],
    };
    let request = client.complete(&prompt, &vec![]).unwrap();
    let system = request.messages[0].content.as_deref().unwrap();
    assert!(system.contains("where we are"));
    assert!(system.contains("an older thread"));
    assert!(!request.messages[1]
        .content
        .as_deref()
        .unwrap()
        .contains("an older thread"));
}

#[test]
fn missing_templates_leave_requests_without_instructions() {
    let client = MistralClient::new(
        MistralConfig::new("key", "model"),
        MockPromptRegistry::new(),
    );
    assert_eq!(client.render_system(Some("s"), None).unwrap(), "");
    let prompt = prompt_of(vec![spoken(Role::User, "hello")]);
    let request = client.complete(&prompt, &vec![]).unwrap();
    assert_eq!(request.messages.len(), 1);
    assert_eq!(request.messages[0].role, "user");
}

#[test]
fn templates_are_rendered_into_the_requests() {
    let prompts = MockPromptRegistry::new()
        .with_template("system", "#system\nplain")
        .with_template("summarize_base", "base")
        .with_template("summarize_topic_shift", "now {{ new_topic }}")
        .with_template("summarize_compaction", "compact")
        .with_template("detect_topic_shift", "detect");
    let config = MistralConfig::new("key", "model")
        .with_summarizer_model("summing")
        .with_topic_detector_model("watching")
        .with_embed_model("embedding");
    let client = MistralClient::new(config, prompts);
    let messages = vec![
        test_message(Role::User, "one"),
        test_message(Role::User, "two"),
    ];

    let shift = client
        .summarize(
            &messages,
            &SummaryRequest::TopicShift {
                new_topic: "taxes".to_string(),
            },
        )
        .unwrap();
    assert_eq!(shift.model, "summing");
    assert!(shift.messages[0]
        .content
        .as_deref()
        .unwrap()
        .contains("now taxes"));
    let compaction = client
        .summarize(&messages, &SummaryRequest::Compaction)
        .unwrap();
    assert!(compaction.messages[0]
        .content
        .as_deref()
        .unwrap()
        .contains("compact"));

    let detection = client.detect_shift(&messages).unwrap().unwrap();
    assert_eq!(detection.model, "watching");
    assert_eq!(detection.temperature, Some(TOPIC_DETECTION_TEMPERATURE));
    assert_eq!(detection.response_format.as_deref(), Some("json_object"));
    assert!(client.detect_shift(&vec![]).unwrap().is_none());

    let embedding = client.embed("some text");
    assert_eq!(embedding.model, "embedding");
    assert_eq!(embedding.input, vec!["some text".to_string()]);
}

#[test]
fn models_default_to_the_chat_model() {
    let client = test_client();
    assert_eq!(client.chat_model(), "mistral-small-latest");
    assert_eq!(client.summarizer_model(), "mistral-small-latest");
    assert_eq!(client.topic_detector_model(), "mistral-small-latest");
    assert_eq!(client.embed_model(), DEFAULT_EMBED_MODEL);
    assert_eq!(
        client.chat_url(),
        "https://api.mistral.ai/v1/chat/completions"
    );
    assert_eq!(client.embed_url(), "https://api.mistral.ai/v1/embeddings");
    assert_eq!(client.remaining_capacity(&prompt_of(vec![])), 4096);
    assert_eq!(MISTRAL_EMBED_DIMENSION, 1024);
}

#[test]
fn replies_are_read_or_refused() {
    assert_eq!(
        first_choice(vec!["a".to_string(), "b".to_string()]).unwrap(),
        "a"
    );
    assert!(first_choice(vec![]).is_err());
    assert_eq!(first_embedding(vec![vec![1, 2]]).unwrap(), vec![1, 2]);
    assert!(first_embedding(vec![]).is_err());
    let refused = api_error("429 Too Many Requests", "slow down");
    assert!(refused.message.contains("429 Too Many Requests"));
    assert!(refused.message.contains("slow down"));
    assert!(request_failed("no route").message.contains("no route"));
    assert!(stream_failed("cut off").message.contains("cut off"));
}

#[test]
fn render_message_maps_tool_call_to_assistant_with_tool_calls() {
    let msg = PromptMessage {
        role: Role::Assistant,
        content: vec![Content::ToolCall {
            id: "call-1".to_string(),
            name: "web_search".to_string(),
            input: Json::parse(r#"{"query": "rust async"}"#).unwrap(),
        }],
    };

    let wire = render_message(&msg);
    assert_eq!(wire.len(), 1);
    let rendered = &wire[0];
    assert_eq!(rendered.role, "assistant");
    assert!(rendered.content.is_none());
    let calls = rendered.tool_calls.as_ref().expect("tool_calls present");
    assert_eq!(calls.len(), 1);
    assert_eq!(calls[0].id, "call-1");
    assert_eq!(calls[0].kind, "function");
    assert_eq!(calls[0].function.name, "web_search");
    assert_eq!(calls[0].function.arguments, r#"{"query":"rust async"}"#);
}

#[test]
fn render_message_maps_tool_result_to_tool_role_message() {
    let msg = PromptMessage {
        role: Role::Assistant,
        content: vec![Content::ToolResult {
            id: "call-1".to_string(),
            output: "first hit".to_string(),
            is_error: false,
        }],
    };

    let wire = render_message(&msg);
    assert_eq!(wire.len(), 1);
    let rendered = &wire[0];
    assert_eq!(rendered.role, "tool");
    assert_eq!(rendered.content.as_deref(), Some("first hit"));
    assert_eq!(rendered.tool_call_id.as_deref(), Some("call-1"));
    assert!(rendered.tool_calls.is_none());
}

#[test]
fn render_message_splits_text_and_tool_calls_into_separate_wire_messages() {
    let msg = PromptMessage {
        role: Role::Assistant,
        content: vec![
            Content::Text {
                text: "Let me look that up.".to_string(),
            },
            Content::ToolCall {
                id: "call-1".to_string(),
                name: "web_search".to_string(),
                input: Json::parse(r#"{"query": "rust"}"#).unwrap(),
            },
        ],
    };

    let wire = render_message(&msg);
    assert_eq!(wire.len(), 2);
    assert_eq!(wire[0].role, "assistant");
    assert_eq!(wire[0].content.as_deref(), Some("Let me look that up."));
    assert!(wire[0].tool_calls.is_none());
    assert_eq!(wire[1].role, "assistant");
    assert!(wire[1].content.is_none());
    assert!(wire[1].tool_calls.is_some());
}

fn piece(index: usize, id: Option<&str>, name: Option<&str>, arguments: &str) -> Delta {
    Delta {
        content: None,
        tool_calls: Some(vec![ToolCallDelta {
            index,
            id: id.map(str::to_string),
            kind: id.map(|_| "function".to_string()),
            function: Some(FunctionCallDelta {
                name: name.map(str::to_string),
                arguments: Some(arguments.to_string()),
            }),
        }]),
    }
}

fn said(text: &str) -> Delta {
    Delta {
        content: Some(text.to_string()),
        tool_calls: None,
    }
}

fn call(event: &AssistantEvent) -> &ToolCall {
    match event {
        AssistantEvent::ToolCall(call) => call,
        other => panic!("expected ToolCall, got {other:?}"),
    }
}

#[test]
fn process_delta_assembles_tool_call_from_fragmented_arguments() {
    let mut accumulated = Accumulator::new();

    // First chunk: id and name arrive.
    let events = accumulated.process_delta(piece(
        0,
        Some("call-1"),
        Some("web_search"),
        r#"{"query":"#,
    ));
    assert!(events.is_empty());

    // Second chunk: more arguments.
    let events = accumulated.process_delta(piece(0, None, None, r#""rust async"}"#));
    assert!(events.is_empty());

    // Third chunk: a content delta flushes the accumulated tool call.
    let events = accumulated.process_delta(said("Here you go."));
    assert_eq!(events.len(), 2);

    let first = call(&events[0]);
    assert_eq!(first.id, "call-1");
    assert_eq!(first.name, "web_search");
    assert_eq!(first.input.compact(), r#"{"query":"rust async"}"#);
    assert!(matches!(&events[1], AssistantEvent::Text(text) if text == "Here you go."));
}

#[test]
fn process_delta_flushes_previous_call_when_new_index_arrives() {
    let mut accumulated = Accumulator::new();

    // First call: id, name, complete arguments.
    accumulated.process_delta(piece(
        0,
        Some("call-1"),
        Some("web_search"),
        r#"{"query":"a"}"#,
    ));

    // Second call: new index 1 flushes the first.
    let events = accumulated.process_delta(piece(
        1,
        Some("call-2"),
        Some("web_search"),
        r#"{"query":"b"}"#,
    ));
    assert_eq!(events.len(), 1);
    let first = call(&events[0]);
    assert_eq!(first.id, "call-1");
    assert_eq!(first.input.compact(), r#"{"query":"a"}"#);

    let rest = accumulated.flush();
    assert_eq!(call(&rest[0]).id, "call-2");
    assert!(accumulated.flush().is_empty());
}

#[test]
fn process_delta_handles_malformed_arguments_as_null() {
    let mut accumulated = Accumulator::new();

    accumulated.process_delta(piece(0, Some("call-1"), Some("web_search"), "not-json"));

    let events = accumulated.process_delta(said("done"));
    let first = call(&events[0]);
    assert_eq!(first.id, "call-1");
    assert_eq!(first.input.compact(), "null");
}

#[test]
fn several_calls_in_one_delta_come_out_in_order() {
    let mut accumulated = Accumulator::new();
    let mut events = accumulated.process_delta(Delta {
        content: None,
        tool_calls: Some(vec![
            ToolCallDelta {
                index: 0,
                id: Some("a".to_string()),
                kind: None,
                function: Some(FunctionCallDelta {
                    name: Some("one".to_string()),
                    arguments: Some("{}".to_string()),
                }),
            },
            ToolCallDelta {
                index: 1,
                id: Some("b".to_string()),
                kind: None,
                function: None,
            },
        ]),
    });
    events.extend(accumulated.take_reading(Reading::Done));
    let ids: Vec<&str> = events.iter().map(|e| call(e).id.as_str()).collect();
    assert_eq!(ids, vec!["a", "b"]);
    assert_eq!(call(&events[0]).input.compact(), "{}");
}

#[test]
fn readings_flush_only_at_the_end() {
    let mut accumulated = Accumulator::new();
    let events = accumulated.take_reading(Reading::Chunk(vec![piece(
        0,
        Some("call-1"),
        Some("f"),
        "{}",
    )]));
    assert!(events.is_empty());
    assert!(accumulated.take_reading(Reading::Unreadable).is_empty());
    let events = accumulated.take_reading(Reading::Done);
    assert_eq!(call(&events[0]).id, "call-1");
}

fn data(frames: Vec<Frame>) -> Vec<String> {
    frames
        .into_iter()
        .map(|f| match f {
            Frame::Data(text) => text,
            Frame::Done => "(done)".to_string(),
        })
        .collect()
}

const EVENTS: &str = "data: {\"a\":1}\n\n: note\n\ndata: {\"b\":\"h\u{e9}\"}\n\ndata: [DONE]\n\n";

#[test]
fn event_reader_splits_frames() {
    let mut reader = EventReader::new();
    assert_eq!(
        data(reader.feed(EVENTS.as_bytes())),
        vec!["{\"a\":1}", "{\"b\":\"h\u{e9}\"}", "(done)"]
    );
    assert_eq!(reader.buffer, "");
}

#[test]
fn event_reader_ignores_where_the_text_is_cut() {
    let whole = data(EventReader::new().feed_text(EVENTS));
    let ends: Vec<usize> = EVENTS.char_indices().map(|(i, _)| i).collect();
    for cut in ends {
        let mut reader = EventReader::new();
        let mut frames = reader.feed_text(&EVENTS[..cut]);
        frames.extend(reader.feed_text(&EVENTS[cut..]));
        assert_eq!(data(frames), whole);
    }
}

#[test]
fn event_reader_replaces_broken_bytes() {
    let mut reader = EventReader::new();
    let frames = reader.feed(b"data: \xff\n\n");
    assert_eq!(data(frames), vec!["\u{fffd}"]);
}

#[test]
fn tool_pair_replays_adjacent() {
    let pair = vec![
        PromptMessage {
            role: Role::Assistant,
            content: vec![Content::ToolCall {
                id: "call-1".to_string(),
                name: "echo".to_string(),
                input: Json::null(),
            }],
        },
        PromptMessage {
            role: Role::Assistant,
            content: vec![Content::ToolResult {
                id: "call-1".to_string(),
                output: "ok".to_string(),
                is_error: false,
            }],
        },
    ];
    let request = test_client().complete(&prompt_of(pair), &vec![]).unwrap();
    assert_eq!(request.messages.len(), 3);
    assert_eq!(request.messages[1].role, "assistant");
    assert_eq!(request.messages[2].role, "tool");
    assert_eq!(
        request.messages[1].tool_calls.as_ref().unwrap()[0].id,
        request.messages[2].tool_call_id.clone().unwrap()
    );
}
