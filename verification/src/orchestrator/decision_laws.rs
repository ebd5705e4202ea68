//! What the decisions of a turn come to, in terms of what they were given.

use vstd::prelude::*;

use crate::language_model::ToolCallView;
use crate::memory_index::{RelatedConversation, Score};
use crate::models::conversation::{ConversationItem, ConversationView};
use crate::models::message::{ContentView, MessageId, MessageView, Role};
use crate::orchestrator::decisions::{
    accepted, assistant_view, call_view, carried, confirm_text, drift_of, first_call,
    from_first_user, last_spoken, only_temporal, overlap_start, owned_of, pending_call, position_of,
    prompt_of, question_view, recalled_of, resolve_definition, result_view, temporal_view,
    time_is_due, ContextView,
};
use crate::summarizer::SummaryRequestView;
use crate::tool::ToolOutputView;
use crate::topic_detector::TopicShiftView;

verus! {

// ---------------------------------------------------------------------------
// Topic drift
// ---------------------------------------------------------------------------

pub(crate) proof fn lemma_found_at(messages: Seq<MessageView>, id: MessageId, k: int)
    requires
        0 <= k <= messages.len(),
        forall|i: int| 0 <= i < k ==> (#[trigger] messages[i]).id != id,
        k < messages.len() ==> messages[k].id == id,
    ensures
        position_of(messages, id) == k,
    decreases k,
{
    if k > 0 {
        let rest = messages.drop_first();
        assert(messages[0].id != id);
        assert forall|i: int| 0 <= i < k - 1 implies (#[trigger] rest[i]).id != id by {
            assert(rest[i] == messages[i + 1]);
        }
        lemma_found_at(rest, id, k - 1);
    }
}

/// A shift that starts at no owned message, such as one that starts at the
/// message that has just come in, splits behind all owned messages: all of
/// them are prior context, and the new topic is the one reported.
pub proof fn law_shift_at_incoming_message_splits_behind_all(
    owned: Seq<MessageView>,
    shift: TopicShiftView,
)
    requires
        owned.len() > 0,
        forall|i: int| 0 <= i < owned.len() ==> (#[trigger] owned[i]).id != shift.at_message_id,
    ensures
        drift_of(owned, Some(shift)) == Some((owned.len(), shift.new_topic)),
{
    lemma_found_at(owned, shift.at_message_id, owned.len() as int);
}

/// A shift that starts at an owned message behind the first splits before that
/// message, at its first occurrence.
pub proof fn law_shift_at_owned_message_splits_before_it(
    owned: Seq<MessageView>,
    shift: TopicShiftView,
    i: int,
)
    requires
        0 < i < owned.len(),
        owned[i].id == shift.at_message_id,
        forall|j: int| 0 <= j < i ==> (#[trigger] owned[j]).id != shift.at_message_id,
    ensures
        drift_of(owned, Some(shift)) == Some((i as nat, shift.new_topic)),
{
    lemma_found_at(owned, shift.at_message_id, i);
}

/// Where nothing is detected, nothing is split.
pub proof fn law_no_shift_splits_nothing(owned: Seq<MessageView>)
    ensures
        drift_of(owned, None) is None,
{
}

// ---------------------------------------------------------------------------
// Compaction
// ---------------------------------------------------------------------------

proof fn lemma_user_led(messages: Seq<MessageView>, k: int)
    requires
        0 <= k <= messages.len(),
        forall|i: int| 0 <= i < k ==> (#[trigger] messages[i]).role != Role::User,
        k < messages.len() ==> messages[k].role == Role::User,
    ensures
        from_first_user(messages) == messages.skip(k),
    decreases k,
{
    if k > 0 {
        let rest = messages.drop_first();
        assert(messages[0].role != Role::User);
        assert forall|i: int| 0 <= i < k - 1 implies (#[trigger] rest[i]).role != Role::User by {
            assert(rest[i] == messages[i + 1]);
        }
        lemma_user_led(rest, k - 1);
        assert(rest.skip(k - 1) =~= messages.skip(k));
    } else {
        assert(messages.skip(0) =~= messages);
    }
}

/// A compaction carries the whole of what the user leads among the last two
/// messages: both if the first of them is the user's, the last alone if only
/// that one is, and none if neither is. Of a single message it carries that
/// one, if it is the user's.
pub proof fn law_compaction_carries_the_last_exchange(owned: Seq<MessageView>)
    ensures
        ({
            let kept = carried(owned, owned.len(), SummaryRequestView::Compaction);
            let n = owned.len() as int;
            &&& n >= 2 && owned[n - 2].role == Role::User ==> kept == seq![
                owned[n - 2].id,
                owned[n - 1].id,
            ]
            &&& n >= 2 && owned[n - 2].role != Role::User && owned[n - 1].role == Role::User
                ==> kept == seq![owned[n - 1].id]
            &&& n >= 2 && owned[n - 2].role != Role::User && owned[n - 1].role != Role::User
                ==> kept.len() == 0
            &&& n == 1 && owned[0].role == Role::User ==> kept == seq![owned[0].id]
            &&& n == 1 && owned[0].role != Role::User ==> kept.len() == 0
            &&& n == 0 ==> kept.len() == 0
        }),
{
    let n = owned.len() as int;
    let start = if n >= 2 {
        n - 2
    } else {
        0
    };
    assert(overlap_start(owned.len()) == start);
    let tail = owned.skip(start);
    let kept = carried(owned, owned.len(), SummaryRequestView::Compaction);
    if n >= 2 {
        assert(tail[0] == owned[n - 2] && tail[1] == owned[n - 1]);
        let k: int = if owned[n - 2].role == Role::User {
            0
        } else if owned[n - 1].role == Role::User {
            1
        } else {
            2
        };
        lemma_user_led(tail, k);
        if k == 0 {
            assert(kept =~= seq![owned[n - 2].id, owned[n - 1].id]);
        } else if k == 1 {
            assert(kept =~= seq![owned[n - 1].id]);
        }
    } else if n == 1 {
        assert(tail[0] == owned[0]);
        let k: int = if owned[0].role == Role::User {
            0
        } else {
            1
        };
        lemma_user_led(tail, k);
        if k == 0 {
            assert(kept =~= seq![owned[0].id]);
        }
    } else {
        lemma_user_led(tail, 0);
    }
}

/// A split carries every message from the first one of the user on that stands
/// at most two before the split.
pub proof fn law_overlap_starts_at_the_user(owned: Seq<MessageView>, split: nat, k: int)
    requires
        split <= owned.len(),
        0 <= k < owned.len(),
        split <= k + 2,
        owned[k].role == Role::User,
        forall|i: int|
            0 <= i < k && split <= i + 2 ==> (#[trigger] owned[i]).role != Role::User,
    ensures
        ({
            let kept = carried(owned, split, SummaryRequestView::Compaction);
            &&& kept.len() == owned.len() - k
            &&& forall|i: int| 0 <= i < kept.len() ==> #[trigger] kept[i] == owned[k + i].id
        }),
{
    let start = if split >= 2 {
        split - 2
    } else {
        0
    };
    assert(overlap_start(split) == start);
    let tail = owned.skip(start);
    assert forall|i: int| 0 <= i < k - start implies (#[trigger] tail[i]).role != Role::User by {
        assert(tail[i] == owned[start + i]);
    }
    lemma_user_led(tail, k - start);
}

// ---------------------------------------------------------------------------
// Owned messages and recall
// ---------------------------------------------------------------------------

/// A conversation's own messages are all of those it lists that it names as
/// its own, in their order: one more listed message is one more of them
/// exactly if it is named so.
pub proof fn law_owned_messages_are_kept_in_order(
    items: Seq<ConversationItem>,
    all: Seq<MessageView>,
    next: MessageView,
)
    ensures
        owned_of(items, Seq::empty()).len() == 0,
        items.contains(ConversationItem::Message(next.id)) ==> owned_of(items, all.push(next))
            == owned_of(items, all).push(next),
        !items.contains(ConversationItem::Message(next.id)) ==> owned_of(items, all.push(next))
            == owned_of(items, all),
{
    reveal(Seq::filter);
    assert(all.push(next).drop_last() =~= all);
}

/// The best result is recalled as soon as its score meets the threshold, and
/// no other ever is.
pub proof fn law_best_match_is_recalled(results: Seq<RelatedConversation>, threshold: Score)
    ensures
        results.len() > 0 && results[0].score >= threshold ==> accepted(results, threshold) == Some(
            results[0],
        ),
        results.len() > 0 && results[0].score < threshold ==> accepted(results, threshold) is None,
        results.len() == 0 ==> accepted(results, threshold) is None,
{
}

/// What is recalled is the summary of every recalled conversation that has
/// one, in order: one more conversation adds its summary behind the others, or
/// nothing if it is gone or has none.
pub proof fn law_every_recalled_summary_is_read(
    sources: Seq<Option<ConversationView>>,
    next: Option<ConversationView>,
)
    ensures
        recalled_of(Seq::empty()).len() == 0,
        next is Some && next->0.summary is Some ==> recalled_of(sources.push(next)) == recalled_of(
            sources,
        ).push(next->0.summary->0.content),
        next is Some && next->0.summary is None ==> recalled_of(sources.push(next)) == recalled_of(
            sources,
        ),
        next is None ==> recalled_of(sources.push(next)) == recalled_of(sources),
{
    assert(sources.push(next).drop_last() =~= sources);
}

/// A prompt holds all of its context: the summary's text, every recalled
/// summary, and every message in order, with its role and all its content.
pub proof fn law_prompt_holds_the_context(context: ContextView)
    ensures
        ({
            let prompt = prompt_of(context);
            &&& context.summary is Some ==> prompt.summary == Some(context.summary->0.content)
            &&& context.summary is None ==> prompt.summary is None
            &&& prompt.recalled == context.recalled
            &&& prompt.messages.len() == context.messages.len()
            &&& forall|i: int|
                0 <= i < context.messages.len() ==> (#[trigger] prompt.messages[i]).role
                    == context.messages[i].role && prompt.messages[i].content
                    == context.messages[i].content
        }),
{
}

// ---------------------------------------------------------------------------
// Telling the time
// ---------------------------------------------------------------------------

proof fn lemma_last_spoken(owned: Seq<MessageView>, k: int)
    requires
        0 <= k < owned.len(),
        !only_temporal(owned[k]),
        forall|i: int| k < i < owned.len() ==> only_temporal(#[trigger] owned[i]),
    ensures
        last_spoken(owned) == Some(owned[k].timestamp),
    decreases owned.len(),
{
    if k < owned.len() - 1 {
        let front = owned.drop_last();
        assert(only_temporal(owned[owned.len() - 1]));
        assert forall|i: int| k < i < front.len() implies only_temporal(#[trigger] front[i]) by {
            assert(front[i] == owned[i]);
        }
        lemma_last_spoken(front, k);
    }
}

/// The model is told the time exactly if more than four hours have passed
/// since the last message that holds anything but notes of the time.
pub proof fn law_time_is_told_after_four_hours(
    owned: Seq<MessageView>,
    k: int,
    j: int,
    now: int,
)
    requires
        0 <= k < owned.len(),
        0 <= j < owned[k].content.len(),
        !(owned[k].content[j] is TemporalUpdate),
        forall|i: int, c: int|
            k < i < owned.len() && 0 <= c < owned[i].content.len() ==> (
            #[trigger] owned[i].content[c]) is TemporalUpdate,
    ensures
        time_is_due(owned, now) <==> now - owned[k].timestamp > 4 * 3600 * 1_000_000_000,
{
    assert forall|i: int| k < i < owned.len() implies only_temporal(#[trigger] owned[i]) by {
        assert forall|c: int| 0 <= c < owned[i].content.len() implies (
        #[trigger] owned[i].content[c]) is TemporalUpdate by {}
    }
    lemma_last_spoken(owned, k);
}

/// The model is told the time where nothing has been said yet.
pub proof fn law_time_is_told_at_first(owned: Seq<MessageView>, now: int)
    requires
        forall|i: int, c: int|
            0 <= i < owned.len() && 0 <= c < owned[i].content.len() ==> (
            #[trigger] owned[i].content[c]) is TemporalUpdate,
    ensures
        time_is_due(owned, now),
    decreases owned.len(),
{
    if owned.len() > 0 {
        let front = owned.drop_last();
        let last = owned.len() - 1;
        assert(only_temporal(owned[last])) by {
            assert forall|c: int| 0 <= c < owned[last].content.len() implies (
            #[trigger] owned[last].content[c]) is TemporalUpdate by {}
        }
        assert forall|i: int, c: int|
            0 <= i < front.len() && 0 <= c < front[i].content.len() implies (
        #[trigger] front[i].content[c]) is TemporalUpdate by {
            assert(owned[i].content[c] is TemporalUpdate);
        }
        law_time_is_told_at_first(front, now);
    }
}

/// A note of the time is a message of the user that holds the time and nothing
/// else, so that it never counts as something said.
pub proof fn law_time_note_says_nothing(id: MessageId, now: int)
    ensures
        ({
            let note = temporal_view(id, now);
            &&& note.id == id
            &&& note.role == Role::User
            &&& note.timestamp == now
            &&& note.content.len() == 1
            &&& note.content[0] matches ContentView::TemporalUpdate { timestamp } && timestamp
                == crate::time::instant_text(now)
            &&& only_temporal(note)
        }),
{
}

// ---------------------------------------------------------------------------
// Tool calls
// ---------------------------------------------------------------------------

/// A call is stored as the assistant's, with its identity, name and input, and
/// its result as the user's, under the identity of the call and with the text
/// and the error flag of the output. A text is stored as the assistant's.
pub proof fn law_messages_say_what_they_were_made_from(
    id: MessageId,
    call: ToolCallView,
    output: ToolOutputView,
    text: Seq<char>,
    now: int,
)
    ensures
        ({
            let made = call_view(id, call, now);
            &&& made.id == id && made.role == Role::Assistant && made.timestamp == now
            &&& made.content.len() == 1
            &&& made.content[0] matches ContentView::ToolCall { id: i, name, input } && i == call.id
                && name == call.name && input == call.input
        }),
        ({
            let made = result_view(id, call, output, now);
            &&& made.id == id && made.role == Role::User && made.timestamp == now
            &&& made.content.len() == 1
            &&& made.content[0] matches ContentView::ToolResult { id: i, output: o, is_error } && i
                == call.id && o == output.text && is_error == output.is_error
        }),
        ({
            let made = assistant_view(id, text, now);
            &&& made.id == id && made.role == Role::Assistant && made.timestamp == now
            &&& made.content.len() == 1
            &&& made.content[0] matches ContentView::Text { text: t } && t == text
        }),
{
}

proof fn lemma_first_call(contents: Seq<ContentView>, j: int)
    requires
        0 <= j <= contents.len(),
        forall|c: int| 0 <= c < j ==> !((#[trigger] contents[c]) is ToolCall),
        j < contents.len() ==> contents[j] is ToolCall,
    ensures
        j == contents.len() ==> first_call(contents) is None,
        j < contents.len() ==> (contents[j] matches ContentView::ToolCall { id, name, input }
            && first_call(contents) == Some(ToolCallView { id, name, input })),
    decreases j,
{
    if j > 0 {
        let rest = contents.drop_first();
        assert(!(contents[0] is ToolCall));
        assert forall|c: int| 0 <= c < j - 1 implies !((#[trigger] rest[c]) is ToolCall) by {
            assert(rest[c] == contents[c + 1]);
        }
        lemma_first_call(rest, j - 1);
    }
}

/// The call that a confirmation thread is about is the first one in it.
pub proof fn law_pending_call_is_the_first(messages: Seq<MessageView>, i: int, j: int)
    requires
        0 <= i < messages.len(),
        0 <= j < messages[i].content.len(),
        messages[i].content[j] is ToolCall,
        forall|c: int| 0 <= c < j ==> !((#[trigger] messages[i].content[c]) is ToolCall),
        forall|m: int, c: int|
            0 <= m < i && 0 <= c < messages[m].content.len() ==> !((
            #[trigger] messages[m].content[c]) is ToolCall),
    ensures
        messages[i].content[j] matches ContentView::ToolCall { id, name, input } && pending_call(
            messages,
        ) == Some(ToolCallView { id, name, input }),
    decreases i,
{
    if i == 0 {
        lemma_first_call(messages[0].content, j);
    } else {
        let first = messages[0].content;
        assert forall|c: int| 0 <= c < first.len() implies !((#[trigger] first[c]) is ToolCall) by {
            assert(!(messages[0].content[c] is ToolCall));
        }
        lemma_first_call(first, first.len() as int);
        let rest = messages.drop_first();
        assert(rest[i - 1] == messages[i]);
        assert forall|m: int, c: int|
            0 <= m < i - 1 && 0 <= c < rest[m].content.len() implies !((
        #[trigger] rest[m].content[c]) is ToolCall) by {
            assert(!(messages[m + 1].content[c] is ToolCall));
        }
        law_pending_call_is_the_first(rest, i - 1, j);
    }
}

/// A thread without a call is about none.
pub proof fn law_no_call_is_pending_without_one(messages: Seq<MessageView>)
    requires
        forall|m: int, c: int|
            0 <= m < messages.len() && 0 <= c < messages[m].content.len() ==> !((
            #[trigger] messages[m].content[c]) is ToolCall),
    ensures
        pending_call(messages) is None,
    decreases messages.len(),
{
    if messages.len() > 0 {
        let first = messages[0].content;
        assert forall|c: int| 0 <= c < first.len() implies !((#[trigger] first[c]) is ToolCall) by {
            assert(!(messages[0].content[c] is ToolCall));
        }
        lemma_first_call(first, first.len() as int);
        let rest = messages.drop_first();
        assert forall|m: int, c: int|
            0 <= m < rest.len() && 0 <= c < rest[m].content.len() implies !((
        #[trigger] rest[m].content[c]) is ToolCall) by {
            assert(!(messages[m + 1].content[c] is ToolCall));
        }
        law_no_call_is_pending_without_one(rest);
    }
}

/// Whether a text has another in it at a position.
pub open spec fn shows_at(text: Seq<char>, part: Seq<char>, at: int) -> bool {
    0 <= at && at + part.len() <= text.len() && text.subrange(at, at + part.len()) == part
}

/// The question that opens a thread names the tool and, behind it, shows the
/// input; it is all that the model is then asked, as one message of the user.
pub proof fn law_question_names_tool_and_input(name: Seq<char>, input: Seq<char>)
    ensures
        exists|a: int, b: int|
            a + name.len() <= b && #[trigger] shows_at(confirm_text(name, input), name, a)
                && #[trigger] shows_at(confirm_text(name, input), input, b),
        ({
            let asked = question_view(confirm_text(name, input));
            &&& asked.summary is None
            &&& asked.recalled.len() == 0
            &&& asked.messages.len() == 1
            &&& asked.messages[0].role == Role::User
            &&& asked.messages[0].content.len() == 1
            &&& asked.messages[0].content[0] matches ContentView::Text { text } && text
                == confirm_text(name, input)
        }),
{
    let text = confirm_text(name, input);
    let a = "You are about to call the `"@.len() as int;
    let b = a + name.len() + "` tool with the following input: "@.len();
    assert(text.subrange(a, a + name.len()) =~= name);
    assert(text.subrange(b, b + input.len()) =~= input);
    assert(shows_at(text, name, a));
    assert(shows_at(text, input, b));
}

/// The built-in tool is called `__resolve` and takes an action that is either
/// `execute` or `cancel`.
pub proof fn law_resolve_tool_takes_an_action()
    ensures
        resolve_definition().name == "__resolve"@,
        resolve_definition().input_schema == crate::json::document(
            "{\"properties\":{\"action\":{\"enum\":[\"execute\",\"cancel\"],\"type\":\"string\"}},\"required\":[\"action\"],\"type\":\"object\"}"@,
        ),
{
}

} // verus!
