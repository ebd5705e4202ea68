use std::collections::VecDeque;

use brain::failure::Failure;
use brain::json::Json;
use brain::language_model::{AssistantEvent, Prompt, PromptMessage, ToolCall};
use brain::memory_index::{RelatedConversation, Score};
use brain::models::conversation::{Conversation, ConversationId, ConversationItem};
use brain::models::message::{Content, Message, MessageId, Role};
use brain::models::summary::Summary;
use brain::orchestrator::decisions::{
    should_inject_temporal_update, tools_with_resolve_sentinel, would_overflow, OVERLAP_MESSAGES,
    RESOLVE_TOOL_NAME,
};
use brain::orchestrator::tool_loop::{
    wants_execution, LoopReply, LoopRequest, StreamEvent, ToolLoop, CANCELLED,
};
use brain::orchestrator::turn::{Brain, Reply, Request, Stamp};
use brain::testing::conversation_store::InMemoryConversationStore;
use brain::testing::embedder::MockEmbedder;
use brain::testing::language_model::MockLanguageModel;
use brain::testing::memory_index::MockMemoryIndex;
use brain::testing::summarizer::MockSummarizer;
use brain::testing::tool_registry::MockToolRegistry;
use brain::testing::topic_detector::MockTopicDetector;
use brain::time::Timestamp;
use brain::tool::{Policy, ToolOutput, ToolRegistry};
use brain::topic_detector::TopicShift;

fn make_message(role: Role, text: &str) -> Message {
    Message {
        id: MessageId::new(),
        role,
        content: vec![Content::Text {
            text: text.to_string(),
        }],
        timestamp: Timestamp::now(),
    }
}

fn make_conversation() -> Conversation {
    let now = Timestamp::now();
    Conversation {
        id: ConversationId::new(),
        parent: None,
        items: Vec::new(),
        summary: None,
        created_at: now,
        updated_at: now,
        resolved_at: None,
    }
}

fn summary(text: &str) -> Summary {
    Summary {
        content: text.to_string(),
        created_at: Timestamp::now(),
    }
}

/// In hundredths.
const RECALL_THRESHOLD: Score = 80;

/// A brain with everything it talks to.
struct World {
    brain: Brain,
    store: InMemoryConversationStore,
    llm: MockLanguageModel,
    summarizer: MockSummarizer,
    detector: MockTopicDetector,
    embedder: MockEmbedder,
    index: MockMemoryIndex,
    tools: MockToolRegistry,
    /// A tool call fails outright while this is set.
    broken_tools: bool,
    /// Nobody listens to the answer while this is set.
    hung_up: bool,
    /// The model fails after its next events while this is set.
    broken_stream: bool,
    /// What a turn is refused.
    refused: Option<Refused>,
}

#[derive(Clone, Copy, PartialEq)]
enum Refused {
    List,
    Shift,
    Recalled,
    Summary,
    Search,
    Create,
    UpdateSummary,
    Reference,
    SetCurrent,
    Link,
    Append,
}

fn refusal<T>() -> Result<T, Failure> {
    Err(Failure::new("refused"))
}

impl World {
    fn new(llm: MockLanguageModel) -> World {
        World {
            brain: Brain::new(100, RECALL_THRESHOLD),
            store: InMemoryConversationStore::new(),
            llm,
            summarizer: MockSummarizer::new("summary".to_string()),
            detector: MockTopicDetector::no_shift(),
            embedder: MockEmbedder::default(),
            index: MockMemoryIndex::new(),
            tools: MockToolRegistry::new(),
            broken_tools: false,
            hung_up: false,
            broken_stream: false,
            refused: None,
        }
    }

    fn setup(&mut self, messages: Vec<Message>) -> ConversationId {
        let conv = make_conversation();
        let conv_id = conv.id;
        self.store.add_conversation(conv);
        for msg in messages {
            self.store.append_message(conv_id, msg);
        }
        conv_id
    }

    fn shift_at(&mut self, at: MessageId, new_topic: &str) {
        self.detector = MockTopicDetector::with_shift(TopicShift {
            at_message_id: at,
            new_topic: new_topic.to_string(),
        });
    }

    fn answer(&mut self, request: Request) -> Reply {
        match (self.refused, &request) {
            (Some(Refused::List), Request::List(_)) => return Reply::Messages(refusal()),
            (Some(Refused::Shift), Request::DetectShift(_)) => return Reply::Shift(refusal()),
            (Some(Refused::Recalled), Request::Recalled(_)) => return Reply::Recalled(refusal()),
            (Some(Refused::Summary), Request::Summarize { .. }) => {
                return Reply::Summary(refusal())
            }
            (Some(Refused::Summary), Request::SummarizeAndSearch { .. }) => {
                return Reply::SummaryAndSearch {
                    summary: refusal(),
                    related: Ok(vec![]),
                }
            }
            (Some(Refused::Search), Request::SummarizeAndSearch { .. }) => {
                return Reply::SummaryAndSearch {
                    summary: Ok("summary".to_string()),
                    related: refusal(),
                }
            }
            (Some(Refused::Create), Request::Create(_)) => return Reply::Created(refusal()),
            (Some(Refused::UpdateSummary), Request::UpdateSummary { .. })
            | (Some(Refused::Reference), Request::Reference { .. })
            | (Some(Refused::SetCurrent), Request::SetCurrent(_))
            | (Some(Refused::Link), Request::RecordRecall { .. })
            | (Some(Refused::Append), Request::Append { .. }) => return Reply::Done(refusal()),
            _ => {}
        }
        match request {
            Request::Get(id) => Reply::Conversation(Ok(self.store.get(id))),
            Request::List(id) => Reply::Messages(Ok(self.store.list_messages(id))),
            Request::DetectShift(messages) => {
                Reply::Shift(Ok(self.detector.detect_shift(&messages)))
            }
            Request::Recalled(id) => Reply::Recalled(Ok(self.index.recalled(id))),
            Request::RemainingCapacity(prompt) => {
                Reply::Capacity(self.llm.remaining_capacity(&prompt))
            }
            Request::Summarize { messages, request } => {
                Reply::Summary(Ok(self.summarizer.summarize(&messages, &request)))
            }
            Request::SummarizeAndSearch {
                messages,
                request,
                topic,
                k,
                exclude,
            } => {
                let query = self.embedder.embed(&topic);
                Reply::SummaryAndSearch {
                    summary: Ok(self.summarizer.summarize(&messages, &request)),
                    related: Ok(self.index.search(query, k, Some(exclude))),
                }
            }
            Request::Create(parent) => Reply::Created(Ok(self.store.create(Some(parent)))),
            Request::UpdateSummary {
                conversation,
                summary,
            } => {
                self.store.update_summary(conversation, summary);
                Reply::Done(Ok(()))
            }
            Request::Reference {
                conversation,
                shared,
            } => {
                self.store.reference_messages(conversation, shared);
                Reply::Done(Ok(()))
            }
            Request::SetCurrent(id) => {
                self.store.set_current(id);
                Reply::Done(Ok(()))
            }
            Request::IndexSummary { conversation, text } => {
                let embedding = self.embedder.embed(&text);
                self.index.index_summary(conversation, embedding);
                Reply::Done(Ok(()))
            }
            Request::RecordRecall { from, to, score } => {
                self.index.record_recall(from, to, score);
                Reply::Done(Ok(()))
            }
            Request::Append {
                conversation,
                message,
            } => {
                self.store.append_message(conversation, message);
                Reply::Done(Ok(()))
            }
            Request::Generate { .. } | Request::Fail(_) => panic!("the turn is over"),
        }
    }

    /// Records a turn, up to the prompt for its answer.
    fn record(&mut self, text: &str) -> Result<(ConversationId, Prompt), Failure> {
        let content = vec![Content::Text {
            text: text.to_string(),
        }];
        let current = self.store.current()?;
        let (mut turn, mut request) = self.brain.say(current, content, Stamp::take());
        loop {
            match request {
                Request::Generate {
                    conversation,
                    prompt,
                } => return Ok((conversation, prompt)),
                Request::Fail(failure) => return Err(failure),
                other => {
                    let reply = self.answer(other);
                    (turn, request) = self.brain.step(turn, reply, Stamp::take());
                }
            }
        }
    }

    /// Answers a recorded turn. Gives the pieces that reach the user.
    fn generate(&mut self, conversation: ConversationId, prompt: Prompt) -> Vec<Result<String, Failure>> {
        let mut heard = Vec::new();
        let mut events: VecDeque<AssistantEvent> = VecDeque::new();
        let definitions = self.tools.visible_definitions();
        let (mut state, mut request) = ToolLoop::start(conversation, prompt, &definitions);
        loop {
            let reply = match request {
                LoopRequest::Complete { prompt, tools } => {
                    events = self.llm.complete(prompt, &tools).into();
                    LoopReply::Event(self.next_event(&mut events))
                }
                LoopRequest::NextEvent => LoopReply::Event(self.next_event(&mut events)),
                LoopRequest::Forward(text) => {
                    heard.push(Ok(text));
                    LoopReply::Delivered(!self.hung_up)
                }
                LoopRequest::ForwardError(failure) => {
                    heard.push(Err(failure));
                    LoopReply::Delivered(!self.hung_up)
                }
                LoopRequest::Append {
                    conversation,
                    message,
                } => {
                    self.store.append_message(conversation, message);
                    LoopReply::Done(Ok(()))
                }
                LoopRequest::AppendAll {
                    conversation,
                    messages,
                } => {
                    self.store.append_messages(conversation, messages);
                    LoopReply::Done(Ok(()))
                }
                LoopRequest::List(id) => LoopReply::Messages(Ok(self.store.list_messages(id))),
                LoopRequest::Execute { name, input } => {
                    LoopReply::Executed(if self.broken_tools {
                        Err(Failure::new("the tool broke"))
                    } else {
                        self.tools.execute(&name, input)
                    })
                }
                LoopRequest::Create(parent) => {
                    LoopReply::Created(Ok(self.store.create(Some(parent))))
                }
                LoopRequest::SetCurrent(id) => {
                    self.store.set_current(id);
                    LoopReply::Done(Ok(()))
                }
                LoopRequest::Resolve {
                    conversation,
                    payload,
                } => LoopReply::Done(self.store.resolve_branch(conversation, payload)),
                LoopRequest::Stop => return heard,
            };
            (state, request) = state.step(reply, &self.tools, Stamp::take());
        }
    }

    fn next_event(&self, events: &mut VecDeque<AssistantEvent>) -> StreamEvent {
        match events.pop_front() {
            Some(AssistantEvent::Text(text)) => StreamEvent::Text(text),
            Some(AssistantEvent::ToolCall(call)) => StreamEvent::ToolCall(call),
            None if self.broken_stream => StreamEvent::Failed(Failure::new("cut off")),
            None => StreamEvent::End,
        }
    }

    /// A whole turn: what the user hears.
    fn say(&mut self, text: &str) -> Vec<String> {
        let (conversation, prompt) = self.record(text).unwrap();
        self.generate(conversation, prompt)
            .into_iter()
            .map(|piece| piece.unwrap())
            .collect()
    }

    fn current(&self) -> ConversationId {
        self.store.current().unwrap()
    }

    fn conversation(&self, id: ConversationId) -> Conversation {
        self.store.get_conversation(id).unwrap()
    }
}

fn tool_call(id: &str, name: &str, input: &str) -> AssistantEvent {
    AssistantEvent::ToolCall(ToolCall {
        id: id.to_string(),
        name: name.to_string(),
        input: Json::parse(input).unwrap(),
    })
}

fn text_event(text: &str) -> AssistantEvent {
    AssistantEvent::Text(text.to_string())
}

fn output(text: &str) -> Vec<ToolOutput> {
    vec![ToolOutput {
        text: text.to_string(),
        is_error: false,
    }]
}

fn has_call(m: &Message) -> bool {
    m.content
        .iter()
        .any(|c| matches!(c, Content::ToolCall { .. }))
}

fn has_result(m: &Message) -> bool {
    m.content
        .iter()
        .any(|c| matches!(c, Content::ToolResult { .. }))
}

fn texts(messages: &[Message]) -> Vec<String> {
    messages
        .iter()
        .flat_map(|m| &m.content)
        .filter_map(|c| match c {
            Content::Text { text } => Some(text.clone()),
            _ => None,
        })
        .collect()
}

#[test]
fn prompt_recalled_field_round_trips() {
    let entries = vec![
        "A prior thread about Rust ownership".to_string(),
        "An earlier discussion on async runtimes".to_string(),
    ];
    let prompt = Prompt {
        summary: Some("Prior context".to_string()),
        recalled: entries.clone(),
        messages: vec![PromptMessage {
            role: Role::User,
            content: vec![Content::Text {
                text: "hello".to_string(),
            }],
        }],
    };
    assert_eq!(prompt.recalled, entries);
    assert_eq!(prompt.clone().recalled, entries);
    let empty = Prompt {
        summary: None,
        recalled: Vec::new(),
        messages: Vec::new(),
    };
    assert!(empty.recalled.is_empty());
}

#[test]
fn say_calls_llm_with_user_message() {
    let mut world = World::new(MockLanguageModel::new(1000));
    world.setup(vec![]);

    world.say("hello");

    let prompts = world.llm.prompts();
    let last = prompts.last().unwrap();
    let user_msg = last.messages.last().unwrap();
    assert!(matches!(user_msg.role, Role::User));
}

#[test]
fn say_passes_summary_to_language_model() {
    let mut world = World::new(MockLanguageModel::new(1000));
    let conv_id = world.setup(vec![]);
    world
        .store
        .update_summary(conv_id, summary("Earlier we discussed Rust"));

    world.say("hello");

    let prompt = &world.llm.prompts()[0];
    assert_eq!(prompt.summary.as_deref(), Some("Earlier we discussed Rust"));
}

#[test]
fn say_persists_assistant_response() {
    let mut world = World::new(MockLanguageModel::with_chunks(
        1000,
        vec!["world".to_string()],
    ));
    let conv_id = world.setup(vec![]);

    world.say("hello");

    let messages = world.store.list_messages(conv_id);
    let assistant_count = messages
        .iter()
        .filter(|m| matches!(m.role, Role::Assistant))
        .count();
    assert_eq!(assistant_count, 1);
}

fn drift_world() -> (World, ConversationId) {
    let mut world = World::new(MockLanguageModel::new(1000));
    let msg1 = make_message(Role::User, "hello");
    let msg2 = make_message(Role::Assistant, "hi");
    let msg3 = make_message(Role::User, "let's talk about Rust");
    let shift_at = msg3.id;
    let conv_id = world.setup(vec![msg1, msg2, msg3]);
    world.shift_at(shift_at, "Rust");
    world.summarizer = MockSummarizer::new("discussed greetings".to_string());
    (world, conv_id)
}

#[test]
fn topic_shift_triggers_summarisation() {
    let (mut world, conv_id) = drift_world();

    world.record("tell me more").unwrap();

    let calls = world.summarizer.calls();
    assert_eq!(calls.len(), 1);
    assert_eq!(calls[0].len(), 2);

    let new_current = world.current();
    assert_ne!(new_current, conv_id);

    let old_conv = world.conversation(conv_id);
    assert!(old_conv.summary.is_none());

    let new_conv = world.conversation(new_current);
    assert_eq!(new_conv.parent, Some(conv_id));
    assert!(new_conv.summary.is_some());
}

#[test]
fn drift_split_carries_no_overlap() {
    let (mut world, _) = drift_world();

    world.record("tell me more").unwrap();

    let new_conv = world.conversation(world.current());
    let referenced = new_conv
        .items
        .iter()
        .filter(|item| matches!(item, ConversationItem::ReferencedMessage(_)))
        .count();
    assert_eq!(
        referenced, 0,
        "drift child must carry no referenced overlap"
    );
}

#[test]
fn low_capacity_triggers_reorganise() {
    let mut world = World::new(MockLanguageModel::new(50));
    let messages: Vec<Message> = (0..5)
        .map(|i| {
            make_message(
                if i % 2 == 0 {
                    Role::User
                } else {
                    Role::Assistant
                },
                &format!("msg {}", i),
            )
        })
        .collect();
    let conv_id = world.setup(messages);
    world.summarizer = MockSummarizer::new("compressed".to_string());

    world.record("hello").unwrap();

    let new_current = world.current();
    assert_ne!(new_current, conv_id);

    let new_conv = world.conversation(new_current);
    assert_eq!(new_conv.parent, Some(conv_id));
}

fn five_turns() -> Vec<Message> {
    vec![
        make_message(Role::User, "u1"),
        make_message(Role::Assistant, "a1"),
        make_message(Role::User, "u2"),
        make_message(Role::Assistant, "a2"),
        make_message(Role::User, "u3"),
    ]
}

#[test]
fn split_first_reference_is_a_user_message() {
    let mut world = World::new(MockLanguageModel::new(50));
    let conv_id = world.setup(five_turns());

    world.record("hello").unwrap();

    let new_current = world.current();
    assert_ne!(new_current, conv_id);

    let new_conv = world.conversation(new_current);
    let first_ref = new_conv
        .items
        .iter()
        .find_map(|item| match item {
            ConversationItem::ReferencedMessage(id) => Some(*id),
            ConversationItem::Message(_) => None,
        })
        .expect("expected at least one referenced message");
    let first_ref_message = world.store.get_message(first_ref).unwrap();
    assert!(matches!(first_ref_message.role, Role::User));
}

#[test]
fn compaction_keeps_at_most_the_overlap() {
    let mut world = World::new(MockLanguageModel::new(50));
    world.setup(five_turns());

    world.record("hello").unwrap();

    let child = world.conversation(world.current());
    let shared = texts(&world.store.list_messages(child.id));
    assert!(child.items.len() <= OVERLAP_MESSAGES + 2);
    assert_eq!(shared, vec!["u3".to_string(), "hello".to_string()]);
}

#[test]
fn reorganise_only_summarises_owned_messages() {
    let mut world = World::new(MockLanguageModel::new(50));
    let owned1 = make_message(Role::User, "owned 1");
    let owned2 = make_message(Role::User, "owned 2");
    let owned3 = make_message(Role::User, "owned 3");
    let referenced = make_message(Role::User, "referenced");
    let conv_id = world.setup(vec![owned1, owned2, owned3]);
    world
        .store
        .add_referenced_message(conv_id, referenced.clone());

    world.record("hello").unwrap();

    let calls = world.summarizer.calls();
    assert!(!calls.is_empty());
    let last_call = &calls[calls.len() - 1];
    for msg in last_call {
        assert_ne!(msg.id, referenced.id);
    }
}

#[test]
fn topic_shift_records_recall_and_indexes_child_summary() {
    let mut world = World::new(MockLanguageModel::new(1000));
    let prior = make_message(Role::User, "we discussed the CLI");
    let shift = make_message(Role::User, "now let's talk about vector recall");
    let parent = world.setup(vec![prior, shift.clone()]);

    let candidate = make_conversation();
    let candidate_id = candidate.id;
    world.store.add_conversation(candidate);
    world.store.set_current(parent);
    world
        .store
        .update_summary(candidate_id, summary("Earlier vector recall notes"));

    world.shift_at(shift.id, "vector recall");
    world.summarizer = MockSummarizer::new("child summary".to_string());
    world.embedder = MockEmbedder::new(3);
    world.index.push_search(vec![RelatedConversation {
        id: candidate_id,
        score: 91,
    }]);

    world.say("tell me more");

    let child = world.current();
    assert_ne!(child, parent);

    let recalls = world.index.recalls();
    assert_eq!(recalls.len(), 1);
    assert_eq!(recalls[0].from, child);
    assert_eq!(recalls[0].to, candidate_id);
    assert_eq!(recalls[0].score, 91);

    let search_calls = world.index.search_calls();
    assert_eq!(search_calls.len(), 1);
    assert_eq!(search_calls[0].k, 1);
    assert_eq!(search_calls[0].exclude, Some(parent));

    let indexed = world.index.indexed();
    assert_eq!(indexed.len(), 1);
    assert_eq!(indexed[0].id, child);
    let zero: u32 = 0.0f32.to_bits();
    assert_eq!(indexed[0].embedding, vec![zero, zero, zero]);

    let embed_calls = world.embedder.calls();
    assert!(embed_calls.contains(&"vector recall".to_string()));
    assert!(embed_calls.contains(&"child summary".to_string()));
}

#[test]
fn following_turn_resolves_recalled_summary_into_prompt_only() {
    let mut world = World::new(MockLanguageModel::with_chunks(
        1000,
        vec!["assistant output".to_string()],
    ));
    let parent_message = make_message(Role::User, "old thread");
    let shift = make_message(Role::User, "new thread");
    let parent = world.setup(vec![parent_message, shift.clone()]);

    let recalled_source = make_conversation();
    let recalled_source_id = recalled_source.id;
    world.store.add_conversation(recalled_source);
    world.store.set_current(parent);
    world.store.update_summary(
        recalled_source_id,
        summary("Recalled summary from another thread"),
    );
    world.index.push_search(vec![RelatedConversation {
        id: recalled_source_id,
        score: 95,
    }]);
    world.shift_at(shift.id, "old thread");
    world.summarizer = MockSummarizer::new("child summary".to_string());

    world.say("split now");
    let child = world.current();
    world.say("continue");

    let prompts = world.llm.prompts();
    assert_eq!(
        prompts.last().unwrap().recalled,
        vec!["Recalled summary from another thread".to_string()]
    );

    let messages = world.store.list_messages(child);
    assert!(messages.iter().all(|m| !matches!(m.role, Role::System)));
    let text = texts(&messages).join("\n");
    assert!(!text.contains("Recalled summary from another thread"));
    assert!(text.contains("assistant output"));
}

fn world_with_candidate(score: Score) -> World {
    let mut world = World::new(MockLanguageModel::new(1000));
    let prior = make_message(Role::User, "prior");
    let shift = make_message(Role::User, "shift");
    world.setup(vec![prior, shift.clone()]);
    world.index.push_search(vec![RelatedConversation {
        id: ConversationId::new(),
        score,
    }]);
    world.shift_at(shift.id, "shift");
    world
}

#[test]
fn candidate_below_threshold_produces_no_recall_edge() {
    let mut world = world_with_candidate(79);
    world.say("continue");
    assert!(world.index.recalls().is_empty());
}

#[test]
fn candidate_at_the_threshold_is_recalled() {
    let mut world = world_with_candidate(80);
    world.say("continue");
    assert_eq!(world.index.recalls().len(), 1);
}

#[test]
fn compaction_split_does_not_search_or_record_recall() {
    let mut world = World::new(MockLanguageModel::new(1));
    world.setup(vec![
        make_message(Role::User, "u1"),
        make_message(Role::Assistant, "a1"),
    ]);

    world.say("overflow");

    assert!(world.index.search_calls().is_empty());
    assert!(world.index.recalls().is_empty());
}

fn echo_world() -> (World, ConversationId) {
    let mut world = World::new(MockLanguageModel::with_turns(
        1000,
        vec![
            vec![tool_call("call-1", "echo", r#"{ "text": "hello" }"#)],
            vec![text_event("done")],
        ],
    ));
    let conv_id = world.setup(vec![]);
    world.tools =
        MockToolRegistry::new().register("echo", "Echoes text", Policy::Auto, output("hello"));
    (world, conv_id)
}

#[test]
fn auto_tool_executes_and_loop_continues() {
    let (mut world, conv_id) = echo_world();

    let text_chunks = world.say("run echo");
    assert_eq!(text_chunks, vec!["done".to_string()]);

    let execs = world.tools.executions();
    assert_eq!(execs.len(), 1);
    assert_eq!(execs[0].name, "echo");
    assert_eq!(execs[0].input.compact(), r#"{"text":"hello"}"#);

    let messages = world.store.list_messages(conv_id);
    let has_assistant_text = messages.iter().any(|m| {
        matches!(m.role, Role::Assistant)
            && m.content.iter().any(|c| matches!(c, Content::Text { .. }))
    });
    assert!(
        messages.iter().any(has_call),
        "parent must contain ToolCall content"
    );
    assert!(
        messages.iter().any(has_result),
        "parent must contain ToolResult content"
    );
    assert!(has_assistant_text, "parent must contain assistant text");

    assert_eq!(world.llm.prompts().len(), 2);
}

#[test]
fn tool_call_and_result_are_adjacent_in_conversation() {
    let mut world = World::new(MockLanguageModel::with_turns(
        1000,
        vec![
            vec![tool_call("call-adj", "echo", "{}")],
            vec![text_event("all done")],
        ],
    ));
    let conv_id = world.setup(vec![]);
    world.tools =
        MockToolRegistry::new().register("echo", "Echoes text", Policy::Auto, output("ok"));

    world.say("go");

    let messages = world.store.list_messages(conv_id);
    let pos_call = messages
        .iter()
        .position(has_call)
        .expect("ToolCall message must exist");
    let pos_result = messages
        .iter()
        .position(has_result)
        .expect("ToolResult message must exist");
    assert_eq!(
        pos_result,
        pos_call + 1,
        "ToolResult must immediately follow ToolCall"
    );
}

#[test]
fn failing_tool_is_reported_to_the_model() {
    let (mut world, conv_id) = echo_world();
    world.broken_tools = true;

    assert_eq!(world.say("run echo"), vec!["done".to_string()]);

    let messages = world.store.list_messages(conv_id);
    let result = messages
        .iter()
        .flat_map(|m| &m.content)
        .find_map(|c| match c {
            Content::ToolResult {
                output, is_error, ..
            } => Some((output.clone(), *is_error)),
            _ => None,
        })
        .unwrap();
    assert!(result.0.contains("the tool broke"));
    assert!(result.1);
}

#[test]
fn unknown_tool_is_answered_with_an_error() {
    let mut world = World::new(MockLanguageModel::with_turns(
        1000,
        vec![
            vec![tool_call("call-1", "missing", "{}")],
            vec![text_event("sorry")],
        ],
    ));
    let conv_id = world.setup(vec![]);

    assert_eq!(world.say("go"), vec!["sorry".to_string()]);
    let messages = world.store.list_messages(conv_id);
    assert!(messages
        .iter()
        .flat_map(|m| &m.content)
        .any(|c| matches!(c, Content::ToolResult { is_error: true, .. })));
}

/// A model that calls a tool to be confirmed, asks, and then resolves.
fn confirm_world(question: &str, to: &str, action: Option<&str>) -> (World, ConversationId) {
    let mut turns = vec![
        vec![tool_call(
            "call-1",
            "send_email",
            &format!("{{ \"to\": \"{to}\" }}"),
        )],
        vec![text_event(question)],
    ];
    if let Some(action) = action {
        turns.push(vec![tool_call(
            "resolve-1",
            "__resolve",
            &format!("{{ \"action\": \"{action}\" }}"),
        )]);
    }
    let mut world = World::new(MockLanguageModel::with_turns(1000, turns));
    let parent_id = world.setup(vec![]);
    world.tools = MockToolRegistry::new().register(
        "send_email",
        "Sends an email",
        Policy::Confirm,
        output("sent"),
    );
    (world, parent_id)
}

#[test]
fn confirm_tool_opens_resolution_thread_and_writes_nothing_to_parent() {
    let (mut world, parent_id) = confirm_world(
        "About to send email. Shall I proceed?",
        "alice@example.com",
        None,
    );

    let question_text = world.say("send email").concat();
    assert!(
        question_text.contains("email") || question_text.contains("proceed"),
        "expected a confirmation question, got: {question_text:?}"
    );

    let current = world.current();
    assert_ne!(
        current, parent_id,
        "current must be the confirmation thread"
    );
    let thread = world.conversation(current);
    assert_eq!(thread.parent, Some(parent_id));

    for msg in &world.store.list_messages(parent_id) {
        assert!(
            !has_call(msg) && !has_result(msg),
            "parent must not contain tool call/result content before resolution"
        );
    }

    assert!(world.tools.executions().is_empty());
}

#[test]
fn confirm_tool_resolves_execute_writes_pair_to_parent() {
    let (mut world, parent_id) =
        confirm_world("Shall I send?", "bob@example.com", Some("execute"));

    world.say("email bob");
    let thread_id = world.current();
    assert_ne!(thread_id, parent_id);

    world.say("yes, send it");
    assert_eq!(
        world.current(),
        parent_id,
        "current must return to parent after resolve"
    );

    let execs = world.tools.executions();
    assert_eq!(execs.len(), 1);
    assert_eq!(execs[0].name, "send_email");

    let parent_messages = world.store.list_messages(parent_id);
    assert!(
        parent_messages.iter().any(has_call),
        "parent must contain ToolCall after resolution"
    );
    assert!(
        parent_messages.iter().any(has_result),
        "parent must contain ToolResult after resolution"
    );

    let thread_messages = world.store.list_messages(thread_id);
    assert!(
        !thread_messages.iter().any(has_result),
        "thread must NOT contain ToolResult — that belongs in the parent"
    );
    assert!(world.conversation(thread_id).resolved_at.is_some());
}

#[test]
fn confirm_tool_resolves_cancel_writes_cancellation_to_parent() {
    let (mut world, parent_id) =
        confirm_world("Shall I send?", "carol@example.com", Some("cancel"));

    world.say("email carol");
    world.say("actually, don't send");

    assert_eq!(world.current(), parent_id);
    assert!(
        world.tools.executions().is_empty(),
        "tool must not run on cancel"
    );

    let parent_messages = world.store.list_messages(parent_id);
    let cancellation = parent_messages.iter().find(|m| has_result(m));
    assert!(
        cancellation.is_some(),
        "parent must have a cancellation ToolResult"
    );
    assert!(cancellation.unwrap().content.iter().any(
        |c| matches!(c, Content::ToolResult { output, .. } if output == CANCELLED)
    ));
}

#[test]
fn every_result_stands_behind_its_call_in_every_conversation() {
    let mut world = World::new(MockLanguageModel::with_turns(
        1000,
        vec![
            vec![
                text_event("Two things first."),
                tool_call("call-a", "echo", "{}"),
                tool_call("call-b", "echo", "{}"),
            ],
            vec![text_event("Now the mail.")],
            vec![tool_call("call-c", "send_email", "{}")],
            vec![text_event("Shall I send?")],
            vec![tool_call(
                "resolve-1",
                "__resolve",
                "{ \"action\": \"execute\" }",
            )],
        ],
    ));
    let parent = world.setup(vec![]);
    world.tools = MockToolRegistry::new()
        .register("echo", "Echoes text", Policy::Auto, output("ok"))
        .register(
            "send_email",
            "Sends an email",
            Policy::Confirm,
            output("sent"),
        );

    world.say("echo twice");
    world.say("mail it");
    let thread = world.current();
    world.say("yes");

    let mut answered = Vec::new();
    for id in [parent, thread] {
        let messages = world.store.list_messages(id);
        for (i, m) in messages.iter().enumerate() {
            if let Content::ToolResult { id: result, .. } = &m.content[0] {
                assert!(
                    matches!(&messages[i - 1].content[0], Content::ToolCall { id: call, .. } if call == result)
                );
                answered.push(result.clone());
            }
        }
    }
    assert_eq!(answered, vec!["call-a", "call-b", "call-c"]);
}

#[test]
fn list_messages_on_parent_shows_pair_not_thread_dialogue() {
    let (mut world, parent_id) =
        confirm_world("Shall I proceed?", "dave@example.com", Some("execute"));

    world.say("email dave");
    world.say("yes");

    let parent_messages = world.store.list_messages(parent_id);
    assert!(
        parent_messages.iter().any(has_call),
        "parent must contain the ToolCall"
    );
    let dialogue_in_parent = texts(&parent_messages)
        .iter()
        .any(|text| text.contains("proceed") || text.contains("Shall"));
    assert!(
        !dialogue_in_parent,
        "parent must not contain thread dialogue"
    );
}

#[test]
fn first_turn_tells_the_time_and_the_next_does_not() {
    let mut world = World::new(MockLanguageModel::new(1000));
    let conv_id = world.setup(vec![]);
    let count = |world: &World| {
        world
            .store
            .list_messages(conv_id)
            .iter()
            .flat_map(|m| m.content.clone())
            .filter(|c| matches!(c, Content::TemporalUpdate { .. }))
            .count()
    };

    world.say("hello");
    assert_eq!(count(&world), 1);
    world.say("again");
    assert_eq!(count(&world), 1);
}

#[test]
fn time_is_told_after_more_than_four_idle_hours() {
    let hour: i128 = 3_600_000_000_000;
    let start = Timestamp::from_nanosecond(0).unwrap();
    let mut message = make_message(Role::User, "hello");
    message.timestamp = start;
    let owned = vec![message];
    let at = |nanos: i128| Timestamp::from_nanosecond(nanos).unwrap();
    assert!(!should_inject_temporal_update(&owned, at(hour)));
    assert!(!should_inject_temporal_update(&owned, at(4 * hour)));
    assert!(should_inject_temporal_update(&owned, at(4 * hour + 1)));
    assert!(should_inject_temporal_update(&vec![], start));
}

#[test]
fn missing_conversation_ends_the_turn() {
    let mut world = World::new(MockLanguageModel::new(1000));
    assert!(world.record("hello").is_err());
    world.setup(vec![]);
    world.store.set_current(ConversationId::new());
    assert!(world.record("hello").is_err());
}

#[test]
fn shift_at_the_first_message_keeps_the_conversation() {
    let mut world = World::new(MockLanguageModel::new(1000));
    let first = make_message(Role::User, "first");
    let id = first.id;
    let conv_id = world.setup(vec![first]);
    world.shift_at(id, "other");

    world.record("go on").unwrap();
    assert_eq!(world.current(), conv_id);
    assert!(world.summarizer.calls().is_empty());
}

#[test]
fn user_message_is_recorded_once_after_a_split() {
    let (mut world, conv_id) = drift_world();
    world.record("tell me more").unwrap();
    let here = texts(&world.store.list_messages(world.current()));
    assert_eq!(here.iter().filter(|t| *t == "tell me more").count(), 1);
    let there = texts(&world.store.list_messages(conv_id));
    assert!(!there.contains(&"tell me more".to_string()));
}

#[test]
fn listener_that_hangs_up_stops_the_loop() {
    let mut world = World::new(MockLanguageModel::with_chunks(
        1000,
        vec!["one".to_string(), "two".to_string()],
    ));
    world.setup(vec![]);
    world.hung_up = true;
    assert_eq!(world.say("hello"), vec!["one".to_string()]);
}

#[test]
fn model_is_offered_the_resolve_tool_beside_the_visible_ones() {
    let (mut world, _) = echo_world();
    world.say("run echo");
    let offered: Vec<String> = world.llm.tool_calls()[0]
        .iter()
        .map(|d| d.name.clone())
        .collect();
    assert_eq!(offered, vec!["echo", RESOLVE_TOOL_NAME]);
    let with = tools_with_resolve_sentinel(&vec![]);
    assert_eq!(with.len(), 1);
    assert_eq!(with[0].name, "__resolve");
}

#[test]
fn capacity_below_the_threshold_overflows() {
    assert!(would_overflow(99, 100));
    assert!(!would_overflow(100, 100));
}

#[test]
fn only_execute_runs_a_confirmed_tool() {
    assert!(wants_execution(Some("execute".to_string())));
    assert!(!wants_execution(Some("cancel".to_string())));
    assert!(!wants_execution(None));
}

#[test]
fn stored_answer_is_what_the_user_heard() {
    let mut world = World::new(MockLanguageModel::with_chunks(
        1000,
        vec!["one ".to_string(), "two ".to_string(), "three".to_string()],
    ));
    let conv_id = world.setup(vec![]);
    let heard = world.say("count").concat();
    assert_eq!(heard, "one two three");
    assert_eq!(
        texts(&world.store.list_messages(conv_id)),
        vec!["count".to_string(), heard]
    );
}

#[test]
fn broken_stream_is_reported_and_stores_nothing() {
    let mut world = World::new(MockLanguageModel::with_chunks(
        1000,
        vec!["half".to_string()],
    ));
    let conv_id = world.setup(vec![]);
    world.broken_stream = true;
    let (conversation, prompt) = world.record("hello").unwrap();
    let heard = world.generate(conversation, prompt);
    assert_eq!(heard.len(), 2);
    assert!(matches!(&heard[0], Ok(text) if text == "half"));
    assert!(matches!(&heard[1], Err(failure) if failure.message == "cut off"));
    assert_eq!(
        texts(&world.store.list_messages(conv_id)),
        vec!["hello".to_string()]
    );
}

#[test]
fn failures_of_a_split_end_the_turn() {
    for refused in [
        Refused::List,
        Refused::Shift,
        Refused::Summary,
        Refused::Create,
        Refused::UpdateSummary,
        Refused::Reference,
        Refused::SetCurrent,
        Refused::Append,
        Refused::Recalled,
    ] {
        let (mut world, _) = drift_world();
        world.refused = Some(refused);
        let failure = world.record("tell me more").unwrap_err();
        assert_eq!(failure.message, "refused");
    }
}

#[test]
fn failed_compaction_summary_ends_the_turn() {
    let mut world = World::new(MockLanguageModel::new(50));
    let conv_id = world.setup(five_turns());
    world.refused = Some(Refused::Summary);
    assert!(world.record("hello").is_err());
    assert_eq!(world.current(), conv_id);
}

#[test]
fn failed_search_splits_without_recall() {
    let (mut world, conv_id) = drift_world();
    world.refused = Some(Refused::Search);
    world.record("tell me more").unwrap();
    assert_ne!(world.current(), conv_id);
    assert!(world.index.recalls().is_empty());
}

#[test]
fn failed_recall_edge_does_not_end_the_turn() {
    let mut world = world_with_candidate(90);
    world.refused = Some(Refused::Link);
    assert!(world.record("continue").is_ok());
    assert!(world.index.recalls().is_empty());
}
