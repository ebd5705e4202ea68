//! What the operations return for what they are given.

use vstd::prelude::*;

use crate::cli::{Config, Settings};
use crate::conversation_store::StoreView;
use crate::evals::drift::{
    locate_shift, score_case, CaseOutcome, Confusion, DetectedShift, DriftCase,
};
use crate::evals::tool_search::{InvocationOutcome, ObservedFirstCall, ToolSearchCase};
use crate::exa::web_search::{ExaWebSearch, SearchRequest};
use crate::failure::Failure;
use crate::json::{string_member, Json};
use crate::language_model::Prompt;
use crate::memory_index::{Embedding, RelatedConversation, Score};
use crate::mistral::client::{
    conversation_text, first_choice, first_embedding, topic_shift_from_response, wire_messages,
    EmbedRequest, MistralClient, MistralRequest, ShiftResponse,
};
use crate::mistral::request_laws::{law_request_offers_the_definitions, says};
use crate::models::conversation::ConversationId;
use crate::models::message::{Content, ContentView, Message, MessageId, Role};
use crate::orchestrator::decision_laws::{
    law_compaction_carries_the_last_exchange, law_shift_at_incoming_message_splits_behind_all,
    law_shift_at_owned_message_splits_before_it, lemma_found_at,
};
use crate::orchestrator::decisions::{
    detect_drift, discover_recall, drift_probe, prior_messages, referenced_messages,
};
use crate::orchestrator::tool_loop::{wants_execution, LoopReply, LoopRequest, Phase, ToolLoop};
use crate::orchestrator::tool_loop_step_laws::{answered, law_tool_answers_are_stored_as_they_came};
use crate::orchestrator::turn::{Brain, Request, Stamp, Turn};
use crate::order::text_le;
use crate::prompts::PromptRegistry;
use crate::summarizer::SummaryRequest;
use crate::surreal::migration_laws::law_pending_migrations_are_run_in_order;
use crate::surreal::migrations::{is_migration, pending_migrations};
use crate::surreal::store::{append_messages, message_from_record, resolve_branch, MessageRow};
use crate::surreal::store_laws::{
    effects, law_append_transaction_appends, law_payload_is_listed_in_the_parent_alone,
    law_resolve_transaction_resolves, lists_in, messages_of, touched, transaction, Statement,
};
use crate::text::views;
use crate::time::Timestamp;
use crate::tool::{ToolDefinition, ToolRegistry};
use crate::topic_detector::TopicShift;

verus! {

/// A shift at the incoming message, or at any message that is not among the
/// owned ones, splits behind all of them, with the topic that was reported.
pub proof fn law_detecting_a_shift_at_the_end(
    owned: Vec<Message>,
    shift: TopicShift,
    r: Option<(usize, String)>,
)
    requires
        call_ensures(detect_drift, (&owned, Some(shift)), r),
        owned@.len() > 0,
        forall|i: int| 0 <= i < owned@.len() ==> (#[trigger] owned@[i]).id != shift.at_message_id,
    ensures
        r is Some,
        (r->0).0 == owned@.len(),
        (r->0).1@ == shift.new_topic@,
{
    let views = owned.deep_view();
    assert forall|i: int| 0 <= i < views.len() implies (#[trigger] views[i]).id
        != shift.at_message_id by {
        assert(views[i] == owned@[i]@);
    }
    law_shift_at_incoming_message_splits_behind_all(views, shift@);
}

/// A shift at an owned message behind the first splits before it, at its first
/// occurrence, with the topic that was reported.
pub proof fn law_detecting_a_shift_in_the_middle(
    owned: Vec<Message>,
    shift: TopicShift,
    i: int,
    r: Option<(usize, String)>,
)
    requires
        call_ensures(detect_drift, (&owned, Some(shift)), r),
        0 < i < owned@.len(),
        owned@[i].id == shift.at_message_id,
        forall|j: int| 0 <= j < i ==> (#[trigger] owned@[j]).id != shift.at_message_id,
    ensures
        r is Some,
        (r->0).0 == i,
        (r->0).1@ == shift.new_topic@,
{
    let views = owned.deep_view();
    assert(views[i] == owned@[i]@);
    assert forall|j: int| 0 <= j < i implies (#[trigger] views[j]).id != shift.at_message_id by {
        assert(views[j] == owned@[j]@);
    }
    law_shift_at_owned_message_splits_before_it(views, shift@, i);
}

/// A split at some message leaves exactly the messages before it behind.
pub proof fn law_prior_messages_are_those_before_the_split(
    owned: Vec<Message>,
    split: usize,
    r: Vec<Message>,
)
    requires
        call_ensures(prior_messages, (&owned, split), r),
        split <= owned@.len(),
    ensures
        r@.len() == split,
        forall|i: int| 0 <= i < split ==> (#[trigger] r@[i])@ == owned@[i]@,
{
    assert(r.deep_view().len() == r@.len());
    assert forall|i: int| 0 <= i < split implies (#[trigger] r@[i])@ == owned@[i]@ by {
        assert(r.deep_view()[i] == r@[i]@);
        assert(owned.deep_view()[i] == owned@[i]@);
    }
}

/// A compaction carries the last two messages where the first of them is the
/// user's, the last alone where only it is, and no message otherwise. A topic
/// shift carries none.
pub proof fn law_carrying_the_last_exchange(
    owned: Vec<Message>,
    request: SummaryRequest,
    r: Vec<MessageId>,
)
    requires
        call_ensures(referenced_messages, (&owned, owned@.len() as usize, &request), r),
        owned@.len() <= usize::MAX,
    ensures
        ({
            let n = owned@.len() as int;
            &&& request is TopicShift ==> r@.len() == 0
            &&& request is Compaction && n >= 2 && owned@[n - 2].role == Role::User ==> r@ == seq![
                owned@[n - 2].id,
                owned@[n - 1].id,
            ]
            &&& request is Compaction && n >= 2 && owned@[n - 2].role != Role::User && owned@[n
                - 1].role == Role::User ==> r@ == seq![owned@[n - 1].id]
            &&& request is Compaction && n == 1 && owned@[0].role == Role::User ==> r@ == seq![
                owned@[0].id,
            ]
            &&& request is Compaction && n >= 1 && owned@[n - 1].role != Role::User && (n == 1
                || owned@[n - 2].role != Role::User) ==> r@.len() == 0
        }),
{
    let n = owned@.len() as int;
    law_compaction_carries_the_last_exchange(owned.deep_view());
    if n >= 1 {
        assert(owned.deep_view()[n - 1] == owned@[n - 1]@);
    }
    if n >= 2 {
        assert(owned.deep_view()[n - 2] == owned@[n - 2]@);
    }
}

/// What a tool returned is stored as it came, with its text and its error
/// flag, whether it ran at once or was confirmed.
pub proof fn law_answering_a_tool_call<R: ToolRegistry>(
    registry: R,
    before: ToolLoop,
    reply: LoopReply,
    stamp: Stamp,
    r: (ToolLoop, LoopRequest),
)
    requires
        call_ensures(ToolLoop::step::<R>, (before, reply, &registry, stamp), r),
        crate::orchestrator::tool_loop::expects(before.phase, reply),
    ensures
        match (before.phase, reply) {
            (Phase::Executing { call, .. }, LoopReply::Executed(result)) => r.1
                matches LoopRequest::AppendAll { conversation, messages } && conversation
                == before.conversation && answered(messages@, stamp, call, result),
            (Phase::ExecutingPending { call }, LoopReply::Executed(result)) => r.1
                matches LoopRequest::Resolve { conversation, payload } && conversation
                == before.conversation && answered(payload@, stamp, call, result),
            _ => true,
        },
{
    law_tool_answers_are_stored_as_they_came(registry, before, reply, stamp, r.0, r.1);
}

/// A loop starts by asking the model with the prompt it was given, and with
/// every tool it was given and the one that closes a thread behind them.
pub proof fn law_loop_starts_with_prompt_and_tools(
    conversation: ConversationId,
    prompt: Prompt,
    definitions: Vec<ToolDefinition>,
    r: (ToolLoop, LoopRequest),
)
    requires
        call_ensures(ToolLoop::start, (conversation, prompt, &definitions), r),
    ensures
        r.0.conversation == conversation,
        r.1 matches LoopRequest::Complete { prompt: asked, tools } && {
            &&& asked@ == prompt@
            &&& tools@.len() == definitions@.len() + 1
            &&& forall|i: int|
                0 <= i < definitions@.len() ==> (#[trigger] tools@[i])@ == definitions@[i]@
            &&& tools@.last().name@ == "__resolve"@
        },
{
    if let LoopRequest::Complete { prompt: asked, tools } = r.1 {
        assert(tools.deep_view().len() == tools@.len());
        assert forall|i: int| 0 <= i < definitions@.len() implies (#[trigger] tools@[i])@
            == definitions@[i]@ by {
            assert(tools.deep_view()[i] == tools@[i]@);
            assert(definitions.deep_view()[i] == definitions@[i]@);
        }
        let last = tools@.len() - 1;
        assert(tools.deep_view()[last] == tools@[last]@);
    }
}

/// A turn starts in the current conversation, with the message of the user as
/// it was said, and reads the conversation first.
pub proof fn law_turn_starts_with_what_was_said(
    brain: Brain,
    current: ConversationId,
    content: Vec<Content>,
    stamp: Stamp,
    r: (Turn, Request),
)
    requires
        call_ensures(Brain::say, (&brain, current, content, stamp), r),
    ensures
        r.0.conversation == current,
        r.0.user.role == Role::User,
        r.0.user.id == stamp.first,
        r.0.user@.content == content.deep_view(),
        r.0.user@.timestamp == stamp.now@,
        r.1 matches Request::Get(id) && id == current,
{
}

/// A chat request offers every tool that it was given, at its place, and is
/// put to the configured model with the messages of the prompt.
pub proof fn law_asking_with_every_tool<R: PromptRegistry>(
    client: MistralClient<R>,
    system: String,
    prompt: Prompt,
    tools: Vec<ToolDefinition>,
    r: MistralRequest,
)
    requires
        call_ensures(MistralClient::<R>::chat_request, (&client, system, &prompt, &tools), r),
        tools@.len() > 0,
    ensures
        r.tools is Some,
        r.tools->0@.len() == tools@.len(),
        forall|i: int|
            0 <= i < tools@.len() ==> {
                let offered = #[trigger] r.tools->0@[i];
                &&& offered.function.name@ == tools@[i].name@
                &&& offered.function.description@ == tools@[i].description@
                &&& offered.function.parameters@ == tools@[i].input_schema@
            },
        r.model@ == client.config.chat_model@,
        r.stream == Some(true),
        system@.len() == 0 ==> r@.messages == wire_messages(prompt@.messages),
        system@.len() > 0 ==> r@.messages.len() > 0 && says(r@.messages[0], "system"@, system@)
            && r@.messages.skip(1) == wire_messages(prompt@.messages),
{
    law_request_offers_the_definitions(
        client.config@,
        system@,
        prompt@.messages,
        tools,
        r,
    );
    if system@.len() == 0 {
        assert(r@.messages =~= wire_messages(prompt@.messages));
    } else {
        assert(r@.messages.skip(1) =~= wire_messages(prompt@.messages));
    }
}

/// A completion that can be asked for offers every tool and carries every
/// message of the prompt, in order and at the end.
pub proof fn law_completing_with_the_whole_prompt<R: PromptRegistry>(
    client: MistralClient<R>,
    prompt: Prompt,
    tools: Vec<ToolDefinition>,
    r: Result<MistralRequest, Failure>,
)
    requires
        call_ensures(MistralClient::<R>::complete, (&client, &prompt, &tools), r),
        r is Ok,
    ensures
        ({
            let request = r->Ok_0;
            let sent = wire_messages(prompt@.messages);
            &&& request.model@ == client.config.chat_model@
            &&& request@.messages.len() >= sent.len()
            &&& request@.messages.skip(request@.messages.len() - sent.len()) == sent
            &&& tools@.len() == 0 ==> request.tools is None
            &&& tools@.len() > 0 ==> request.tools is Some && request.tools->0@.len()
                == tools@.len()
        }),
{
    let request = r->Ok_0;
    let sent = wire_messages(prompt@.messages);
    assert(request@.messages.skip(request@.messages.len() - sent.len()) =~= sent);
    assert(tools.deep_view().len() == tools@.len());
    if tools@.len() > 0 {
        assert(request.tools is Some);
        assert(request@.tools == Some(request.tools->0.deep_view()));
        assert(request.tools->0.deep_view().len() == request.tools->0@.len());
    } else {
        assert(request@.tools is None);
    }
}

/// A summary that can be asked for is shown the whole conversation.
pub proof fn law_summarising_the_whole_conversation<R: PromptRegistry>(
    client: MistralClient<R>,
    messages: Vec<Message>,
    request: SummaryRequest,
    r: Result<MistralRequest, Failure>,
)
    requires
        call_ensures(MistralClient::<R>::summarize, (&client, &messages, &request), r),
        r is Ok,
    ensures
        r->Ok_0@.messages.len() == 2,
        says(
            r->Ok_0@.messages[1],
            "user"@,
            "Conversation to summarise:\n\n"@ + conversation_text(messages.deep_view()),
        ),
        client.config.summarizer_model is Some ==> r->Ok_0.model@
            == client.config.summarizer_model->0@,
        client.config.summarizer_model is None ==> r->Ok_0.model@ == client.config.chat_model@,
{
}

/// A shift is asked for exactly if there are two messages or more, and is then
/// asked of the whole conversation.
pub proof fn law_detecting_over_the_whole_conversation<R: PromptRegistry>(
    client: MistralClient<R>,
    messages: Vec<Message>,
    r: Result<Option<MistralRequest>, Failure>,
)
    requires
        call_ensures(MistralClient::<R>::detect_shift, (&client, &messages), r),
    ensures
        messages@.len() < 2 ==> r matches Ok(None),
        messages@.len() >= 2 && r is Ok ==> {
            &&& r->Ok_0 is Some
            &&& (r->Ok_0)->0@.messages.len() == 2
            &&& says(
                (r->Ok_0)->0@.messages[1],
                "user"@,
                "Conversation:\n\n"@ + conversation_text(messages.deep_view()),
            )
            &&& (r->Ok_0)->0.temperature == Some(0u32)
        },
{
}

/// What is embedded is the text that was given, and nothing else.
pub proof fn law_embedding_the_text<R: PromptRegistry>(
    client: MistralClient<R>,
    text: &str,
    r: EmbedRequest,
)
    requires
        call_ensures(MistralClient::<R>::embed, (&client, text), r),
    ensures
        r.input@.len() == 1,
        r.input@[0]@ == text@,
        client.config.embed_model is Some ==> r.model@ == client.config.embed_model->0@,
        client.config.embed_model is None ==> r.model@ == "mistral-embed"@,
{
    assert(r.input.deep_view().len() == r.input@.len());
    assert(r.input.deep_view()[0] == r.input@[0]@);
}

/// A detector's answer reports a shift exactly if it says so, names a topic
/// and points at one of the messages, and the shift is then at that message.
pub proof fn law_reading_the_detectors_answer(
    messages: Vec<Message>,
    parsed: ShiftResponse,
    r: Option<TopicShift>,
)
    requires
        call_ensures(topic_shift_from_response, (&messages, parsed), r),
    ensures
        r is Some <==> parsed.shifted && parsed.new_topic is Some && parsed.at_message_index is Some
            && parsed.at_message_index->0 < messages@.len(),
        r is Some ==> r->0.at_message_id == messages@[parsed.at_message_index->0 as int].id
            && r->0.new_topic@ == parsed.new_topic->0@,
{
    if parsed.at_message_index is Some && parsed.at_message_index->0 < messages@.len() {
        let i = parsed.at_message_index->0 as int;
        assert(messages.deep_view()[i] == messages@[i]@);
    }
    assert(messages.deep_view().len() == messages@.len());
}

/// The transaction that resolves a branch does to a store what resolving it
/// does, and lists the payload in the parent alone.
pub proof fn law_resolving_a_branch(
    store: StoreView,
    child: ConversationId,
    parent: ConversationId,
    rows: Vec<MessageRow>,
    now: Timestamp,
    read: spec_fn(Seq<char>) -> Seq<ContentView>,
    r: String,
)
    requires
        call_ensures(resolve_branch, (child, parent, &rows, now), r),
    ensures
        exists|program: Seq<Statement>|
            r@ == #[trigger] transaction(program) && effects(store, program, read) == touched(
                store.resolve(child, parent, messages_of(rows.deep_view(), read), now@),
                parent,
                now@,
            ),
        exists|program: Seq<Statement>|
            r@ == #[trigger] transaction(program) && forall|j: int|
                0 <= j < program.len() && (#[trigger] program[j] is Relate) ==> lists_in(
                    program[j],
                    parent,
                ),
{
    law_resolve_transaction_resolves(store, child, parent, rows.deep_view(), now@, read);
    law_payload_is_listed_in_the_parent_alone(child, parent, rows.deep_view(), now@);
}

/// Appending no message takes no transaction; the transaction that appends
/// some does to a store what appending them does.
pub proof fn law_appending_messages(
    store: StoreView,
    conversation: ConversationId,
    rows: Vec<MessageRow>,
    now: Timestamp,
    read: spec_fn(Seq<char>) -> Seq<ContentView>,
    r: Option<String>,
)
    requires
        call_ensures(append_messages, (conversation, &rows, now), r),
    ensures
        rows@.len() == 0 ==> r is None,
        rows@.len() > 0 ==> r is Some && exists|program: Seq<Statement>|
            r->0@ == #[trigger] transaction(program) && effects(store, program, read)
                == store.append_all(conversation, messages_of(rows.deep_view(), read), now@),
{
    assert(rows.deep_view().len() == rows@.len());
    if rows@.len() > 0 {
        law_append_transaction_appends(store, conversation, rows.deep_view(), now@, read);
    }
}

/// A message reads back as it was stored: by its identity, in its role, with
/// its content and its time.
pub proof fn law_stored_message_reads_back(
    id: MessageId,
    role: &str,
    content: Vec<Content>,
    timestamp: &str,
    stored: Message,
    r: Result<Message, Failure>,
)
    requires
        call_ensures(message_from_record, (id, role, content, timestamp), r),
        id == stored.id,
        role@ == stored.role.word(),
        content.deep_view() == stored.content.deep_view(),
        crate::time::parsed_instant(timestamp@) matches Some(n) && n == stored.timestamp@,
    ensures
        r matches Ok(m) && m@ == stored@,
{
    crate::surreal::store::law_stored_role_reads_back(stored.role);
}

/// A case is graded by what was expected and what was detected: its boundary
/// holds the expected turn and the detected one, and its topics are told.
pub proof fn law_grading_a_case(
    case: DriftCase,
    shift: DetectedShift,
    r: CaseOutcome,
    missed: CaseOutcome,
)
    requires
        call_ensures(score_case, (&case, Some(&shift)), r),
        call_ensures(score_case, (&case, None), missed),
    ensures
        r.case_id@ == case.id@,
        case.expect.shifted ==> r.confusion == Confusion::TruePositive && missed.confusion
            == Confusion::FalseNegative,
        !case.expect.shifted ==> r.confusion == Confusion::FalsePositive && missed.confusion
            == Confusion::TrueNegative,
        case.expect.shifted && case.expect.at is Some ==> r.boundary is Some
            && r.boundary->0.expected == case.expect.at->0 && r.boundary->0.predicted
            == shift.at_index,
        !(case.expect.shifted && case.expect.at is Some) ==> r.boundary is None,
        missed.boundary is None,
        r.predicted_topic is Some && r.predicted_topic->0@ == shift.topic@,
        missed.predicted_topic is None,
{
}

/// The settings that are given count; without a key for the model there is no
/// configuration.
pub proof fn law_configuring_from_the_settings(given: Settings, r: Result<Config, Failure>)
    requires
        call_ensures(Config::from_settings, (given,), r),
    ensures
        r is Ok <==> given.mistral_api_key is Some,
        r is Ok ==> {
            let config = r->Ok_0;
            &&& config.mistral_api_key@ == given.mistral_api_key->0@
            &&& given.mistral_model is Some ==> config.mistral_model@ == given.mistral_model->0@
            &&& given.mistral_model is None ==> config.mistral_model@ == "mistral-small-latest"@
            &&& given.mistral_embed_model is Some ==> config.mistral_embed_model@
                == given.mistral_embed_model->0@
            &&& given.mistral_embed_model is None ==> config.mistral_embed_model@
                == "mistral-embed"@
            &&& given.surrealdb_url is Some ==> config.surrealdb_url@ == given.surrealdb_url->0@
            &&& given.surrealdb_url is None ==> config.surrealdb_url@ == "ws://127.0.0.1:8000"@
            &&& config.exa_api_key == given.exa_api_key
        },
        r is Err ==> (r->Err_0)@ == "MISTRAL_API_KEY must be set"@,
{
}

/// The probe for a shift is the owned messages with the incoming one behind
/// them.
pub proof fn law_probing_with_the_incoming_message(
    owned: Vec<Message>,
    incoming: Message,
    r: Vec<Message>,
)
    requires
        call_ensures(drift_probe, (&owned, &incoming), r),
    ensures
        r@.len() == owned@.len() + 1,
        forall|i: int| 0 <= i < owned@.len() ==> (#[trigger] r@[i])@ == owned@[i]@,
        r@.last()@ == incoming@,
{
    assert(r.deep_view().len() == r@.len());
    assert forall|i: int| 0 <= i < owned@.len() implies (#[trigger] r@[i])@ == owned@[i]@ by {
        assert(r.deep_view()[i] == r@[i]@);
        assert(owned.deep_view()[i] == owned@[i]@);
    }
    let last = r@.len() - 1;
    assert(r.deep_view()[last] == r@[last]@);
}

/// The best match is recalled exactly if it is similar enough.
pub proof fn law_recalling_the_best_match(
    results: Vec<RelatedConversation>,
    threshold: Score,
    r: Option<RelatedConversation>,
)
    requires
        call_ensures(discover_recall, (&results, threshold), r),
    ensures
        results@.len() > 0 && results@[0].score >= threshold ==> r == Some(results@[0]),
        !(results@.len() > 0 && results@[0].score >= threshold) ==> r is None,
{
}

/// The pending call is run only on a clear word.
pub proof fn law_running_on_a_clear_word(action: Option<String>, r: bool)
    requires
        call_ensures(wants_execution, (action,), r),
    ensures
        r <==> action is Some && action->0@ == "execute"@,
{
}

/// A shift is located at the first turn with its message, with the topic it
/// names; one at another message is none.
pub proof fn law_locating_a_shift(
    messages: Vec<Message>,
    shift: TopicShift,
    i: int,
    r: Option<DetectedShift>,
)
    requires
        call_ensures(locate_shift, (&messages, Some(shift)), r),
    ensures
        (0 <= i < messages@.len() && messages@[i].id == shift.at_message_id && forall|j: int|
            0 <= j < i ==> (#[trigger] messages@[j]).id != shift.at_message_id) ==> r is Some
            && r->0.at_index == i && r->0.topic@ == shift.new_topic@,
        (forall|j: int|
            0 <= j < messages@.len() ==> (#[trigger] messages@[j]).id != shift.at_message_id)
            ==> r is None,
{
    let views = messages.deep_view();
    if 0 <= i < messages@.len() && messages@[i].id == shift.at_message_id && (forall|j: int|
        0 <= j < i ==> (#[trigger] messages@[j]).id != shift.at_message_id) {
        assert(views[i] == messages@[i]@);
        assert forall|j: int| 0 <= j < i implies (#[trigger] views[j]).id
            != shift.at_message_id by {
            assert(views[j] == messages@[j]@);
        }
        lemma_found_at(views, shift.at_message_id, i);
    }
    if forall|j: int|
        0 <= j < messages@.len() ==> (#[trigger] messages@[j]).id != shift.at_message_id {
        assert forall|j: int| 0 <= j < views.len() implies (#[trigger] views[j]).id
            != shift.at_message_id by {
            assert(views[j] == messages@[j]@);
        }
        lemma_found_at(views, shift.at_message_id, views.len() as int);
    }
}

/// A case of tool discovery is graded by the first call: it matches exactly if
/// the call is the expected one.
pub proof fn law_grading_a_first_call(
    case: ToolSearchCase,
    observed: ObservedFirstCall,
    r: crate::evals::tool_search::CaseOutcome,
)
    requires
        call_ensures(crate::evals::tool_search::score_case, (&case, &observed), r),
    ensures
        r.case_id@ == case.id@,
        r.expected@ == case.expect.first_tool_call@,
        r.outcome == InvocationOutcome::NoCall <==> observed.tool_name is None,
        r.outcome == InvocationOutcome::Match <==> observed.tool_name is Some
            && observed.tool_name->0@ == case.expect.first_tool_call@,
        observed.tool_name is Some ==> r.observed is Some && r.observed->0@
            == observed.tool_name->0@,
{
}

/// The migrations to run are those among the files that were not run, in
/// ascending order of their names.
pub proof fn law_running_what_is_pending(
    names: Vec<String>,
    applied: Vec<String>,
    r: Vec<String>,
)
    requires
        call_ensures(pending_migrations, (&names, &applied), r),
    ensures
        forall|name: Seq<char>| #[trigger]
            views(r@).contains(name) <==> views(names@).contains(name) && is_migration(name)
                && !views(applied@).contains(name),
        forall|a: int, b: int|
            0 <= a < b < r@.len() ==> text_le((#[trigger] r@[a])@, (#[trigger] r@[b])@),
{
    law_pending_migrations_are_run_in_order(views(names@), views(applied@), views(r@));
    assert forall|a: int, b: int| 0 <= a < b < r@.len() implies text_le(
        (#[trigger] r@[a])@,
        (#[trigger] r@[b])@,
    ) by {
        assert(views(r@)[a] == r@[a]@ && views(r@)[b] == r@[b]@);
    }
}

/// A web search asks for the query of its input, and for what is shown of a
/// hit; an input without a query is refused.
pub proof fn law_searching_for_the_query(
    search: ExaWebSearch,
    input: Json,
    r: Result<SearchRequest, Failure>,
)
    requires
        call_ensures(ExaWebSearch::request, (&search, &input), r),
    ensures
        r is Ok <==> string_member(input@, "query"@) is Some,
        r is Ok ==> Some(r->Ok_0.query@) == string_member(input@, "query"@)
            && r->Ok_0.contents.highlights && r->Ok_0.contents.summary,
        r is Err ==> (r->Err_0)@ == "input must contain a `query` string"@,
{
}

/// The first choice of a reply counts, and a reply without one is a failure.
pub proof fn law_first_choice_counts(choices: Vec<String>, r: Result<String, Failure>)
    requires
        call_ensures(first_choice, (choices,), r),
    ensures
        r is Ok <==> choices@.len() > 0,
        r is Ok ==> r->Ok_0@ == choices@[0]@,
        r is Err ==> (r->Err_0)@ == "no choices in response"@,
{
}

/// The first embedding of a reply counts, and a reply without one is a
/// failure.
pub proof fn law_first_embedding_counts(data: Vec<Embedding>, r: Result<Embedding, Failure>)
    requires
        call_ensures(first_embedding, (data,), r),
    ensures
        r is Ok <==> data@.len() > 0,
        r is Ok ==> r->Ok_0@ == data@[0]@,
        r is Err ==> (r->Err_0)@ == "no embedding data in response"@,
{
}

} // verus!
