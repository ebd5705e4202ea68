//! What holds of every turn, whatever its requests are answered with.

use vstd::prelude::*;

use crate::models::conversation::{ConversationId, ConversationItem};
use crate::models::message::{MessageId, MessageView, Role};
use crate::orchestrator::decisions::{
    accepted, carried, drift_of, from_first_user, overlap_start, owned_of, position_of,
    temporal_view, OVERLAP_MESSAGES,
};
use crate::orchestrator::turn::{
    answers, expects, reads_on, reads_owned, turn_step, Brain, ContextGoal, OwnedGoal, Reading,
    Reply, Request, Split, Stage, Stamp, Turn,
};
use crate::summarizer::SummaryRequestView;

verus! {

proof fn lemma_position_bound(messages: Seq<MessageView>, id: MessageId)
    ensures
        position_of(messages, id) <= messages.len(),
    decreases messages.len(),
{
    if messages.len() > 0 && messages[0].id != id {
        lemma_position_bound(messages.drop_first(), id);
    }
}

/// Whoever answers each request with a reply of the kind it asks for may take
/// the next step: a turn can never be handed a reply it does not expect.
pub proof fn law_replies_fit(
    brain: Brain,
    before: Turn,
    reply: Reply,
    stamp: Stamp,
    after: Turn,
    request: Request,
    next: Reply,
)
    requires
        turn_step(brain, before, reply, stamp, after, request),
        answers(request, next),
    ensures
        expects(after.stage, next),
{
    match (before.stage, reply) {
        (Stage::Detecting(owned), Reply::Shift(Ok(Some(shift)))) => {
            lemma_position_bound(owned.deep_view(), shift.at_message_id);
            if after.stage is Summarizing {
                assert(after.stage->owned.deep_view().len() == owned@.len());
            }
        },
        (Stage::Measuring(owned), Reply::Capacity(_)) => {
            if after.stage is Summarizing {
                assert(after.stage->owned.deep_view().len() == owned@.len());
            }
        },
        (Stage::ContextRecalled(_, _, _), Reply::Recalled(Ok(_))) => {
            let reading = choose|reading: Reading| #[trigger] reads_on(after, request, reading);
            if reading.sources@.len() < reading.ids@.len() {
                let r = after.stage->ContextSource_0;
                assert(r.sources.deep_view().len() == reading.sources.deep_view().len());
            }
        },
        (Stage::ContextSource(_), Reply::Conversation(Ok(_))) => {
            let reading = choose|reading: Reading| #[trigger] reads_on(after, request, reading);
            if reading.sources@.len() < reading.ids@.len() {
                let r = after.stage->ContextSource_0;
                assert(r.sources.deep_view().len() == reading.sources.deep_view().len());
            }
        },
        _ => {},
    }
}

/// A turn starts with a request whose reply it expects.
pub proof fn law_first_reply_fits(turn: Turn, request: Request, next: Reply)
    requires
        reads_owned(turn, request, OwnedGoal::Drift),
        answers(request, next),
    ensures
        expects(turn.stage, next),
{
}

proof fn lemma_from_first_user(messages: Seq<MessageView>)
    ensures
        from_first_user(messages).len() <= messages.len(),
        from_first_user(messages) == messages.skip(
            messages.len() - from_first_user(messages).len(),
        ),
        from_first_user(messages).len() > 0 ==> from_first_user(messages)[0].role == Role::User,
    decreases messages.len(),
{
    if messages.len() == 0 || messages[0].role == Role::User {
        assert(messages.skip(0) =~= messages);
    } else {
        let rest = messages.drop_first();
        lemma_from_first_user(rest);
        let k = rest.len() - from_first_user(rest).len();
        assert(rest.skip(k) =~= messages.skip(k + 1));
    }
}

/// A topic shift carries no message into the new conversation.
pub proof fn law_drift_carries_nothing(
    owned: Seq<MessageView>,
    split: nat,
    new_topic: Seq<char>,
)
    ensures
        carried(owned, split, SummaryRequestView::TopicShift { new_topic }).len() == 0,
{
}

/// A compaction carries at most `OVERLAP_MESSAGES` messages: the last ones of
/// the conversation, in order, and the first of them is the user's.
pub proof fn law_compaction_overlap(owned: Seq<MessageView>)
    ensures
        ({
            let kept = carried(owned, owned.len(), SummaryRequestView::Compaction);
            &&& kept.len() <= OVERLAP_MESSAGES
            &&& kept.len() <= owned.len()
            &&& kept == owned.skip(owned.len() - kept.len()).map_values(|m: MessageView| m.id)
            &&& kept.len() > 0 ==> owned[owned.len() - kept.len()].role == Role::User
        }),
{
    let start = overlap_start(owned.len());
    let tail = owned.skip(start);
    lemma_from_first_user(tail);
    let kept = from_first_user(tail);
    let k = tail.len() - kept.len();
    assert(tail.skip(k) =~= owned.skip(start + k));
    assert(start + k == owned.len() - kept.len());
}

/// Only messages that a conversation owns are shown to the topic detector,
/// summarised or looked at for the time: referenced messages are left out.
pub proof fn law_owned_messages_are_owned(items: Seq<ConversationItem>, all: Seq<MessageView>)
    ensures
        forall|i: int|
            0 <= i < owned_of(items, all).len() ==> items.contains(
                ConversationItem::Message((#[trigger] owned_of(items, all)[i]).id),
            ) && all.contains(owned_of(items, all)[i]),
{
    let own = |m: MessageView| items.contains(ConversationItem::Message(m.id));
    broadcast use vstd::seq_lib::group_filter_ensures;

    assert forall|i: int| 0 <= i < owned_of(items, all).len() implies items.contains(
        ConversationItem::Message((#[trigger] owned_of(items, all)[i]).id),
    ) && all.contains(owned_of(items, all)[i]) by {
        assert(own(all.filter(own)[i]));
        lemma_filter_contains(all, own, i);
    }
}

proof fn lemma_filter_contains(all: Seq<MessageView>, p: spec_fn(MessageView) -> bool, i: int)
    requires
        0 <= i < all.filter(p).len(),
    ensures
        all.contains(all.filter(p)[i]),
    decreases all.len(),
{
    reveal(Seq::filter);
    if all.len() > 0 {
        let rest = all.drop_last();
        if i < rest.filter(p).len() {
            lemma_filter_contains(rest, p, i);
            let k = choose|k: int| 0 <= k < rest.len() && rest[k] == rest.filter(p)[i];
            assert(all[k] == all.filter(p)[i]);
        } else {
            assert(all[all.len() - 1] == all.filter(p)[i]);
        }
    }
}

/// What closing a conversation may settle: a topic shift shares no message
/// and recalls only a conversation that is similar enough; a compaction
/// shares the overlap and recalls nothing.
pub open spec fn split_ok(brain: Brain, split: Split) -> bool {
    match split.request@ {
        SummaryRequestView::TopicShift { .. } => {
            &&& split.referenced@.len() == 0
            &&& split.candidate matches Some(candidate) ==> candidate.score
                >= brain.recall_threshold
        },
        SummaryRequestView::Compaction => {
            &&& split.candidate is None
            &&& exists|owned: Seq<MessageView>|
                split.referenced@ == #[trigger] carried(
                    owned,
                    owned.len(),
                    SummaryRequestView::Compaction,
                )
        },
    }
}

/// The invariant of a turn.
pub open spec fn turn_ok(brain: Brain, turn: Turn) -> bool {
    match turn.stage {
        Stage::Summarizing { owned, split, request } => match request@ {
            SummaryRequestView::TopicShift { .. } => 0 < split <= owned@.len(),
            SummaryRequestView::Compaction => split == owned@.len(),
        },
        Stage::Creating(split) => split_ok(brain, split),
        Stage::Summing(split) => split_ok(brain, split),
        Stage::Referencing(split) => split_ok(brain, split),
        Stage::Switching(split) => split_ok(brain, split),
        Stage::Indexing(split) => split_ok(brain, split),
        _ => true,
    }
}

/// Every step keeps the invariant.
pub proof fn law_turn_stays_ok(
    brain: Brain,
    before: Turn,
    reply: Reply,
    stamp: Stamp,
    after: Turn,
    request: Request,
)
    requires
        turn_ok(brain, before),
        expects(before.stage, reply),
        turn_step(brain, before, reply, stamp, after, request),
    ensures
        turn_ok(brain, after),
{
    match (before.stage, reply) {
        (Stage::Detecting(owned), Reply::Shift(Ok(Some(shift)))) => {
            lemma_position_bound(owned.deep_view(), shift.at_message_id);
        },
        (Stage::ContextRecalled(_, _, _), Reply::Recalled(Ok(_))) => {
            let reading = choose|reading: Reading| #[trigger] reads_on(after, request, reading);
        },
        (Stage::ContextSource(_), Reply::Conversation(Ok(_))) => {
            let reading = choose|reading: Reading| #[trigger] reads_on(after, request, reading);
        },
        (Stage::Measuring(owned), Reply::Capacity(_)) => {
            assert(owned.deep_view().len() == owned@.len());
            if after.stage is Summarizing {
                assert(after.stage->owned.deep_view().len() == owned@.len());
            }
        },
        (
            Stage::Summarizing { owned, split, request: reason },
            Reply::Summary(Ok(content)),
        ) => {
            assert(owned.deep_view().len() == owned@.len());
        },
        (
            Stage::Summarizing { owned, split, request: reason },
            Reply::SummaryAndSearch { summary, related },
        ) => {
            assert(owned.deep_view().len() == owned@.len());
        },
        _ => {},
    }
}

/// Memory is searched only on a topic shift, and a recall edge is recorded
/// only after one, from the new conversation to one whose similarity meets
/// the threshold. A compaction does neither.
pub proof fn law_only_drift_recalls(
    brain: Brain,
    before: Turn,
    reply: Reply,
    stamp: Stamp,
    after: Turn,
    request: Request,
)
    requires
        turn_ok(brain, before),
        expects(before.stage, reply),
        turn_step(brain, before, reply, stamp, after, request),
    ensures
        request matches Request::SummarizeAndSearch { request: reason, exclude, .. } ==> {
            &&& reason@ is TopicShift
            &&& exclude == before.conversation
        },
        request matches Request::RecordRecall { from, to, score } ==> {
            &&& before.stage matches Stage::Indexing(split) && split.request@ is TopicShift
            &&& from == after.conversation
            &&& score >= brain.recall_threshold
        },
{
    match (before.stage, reply) {
        (Stage::ContextRecalled(_, _, _), Reply::Recalled(Ok(_))) => {
            let reading = choose|reading: Reading| #[trigger] reads_on(after, request, reading);
        },
        (Stage::ContextSource(_), Reply::Conversation(Ok(_))) => {
            let reading = choose|reading: Reading| #[trigger] reads_on(after, request, reading);
        },
        _ => {},
    }
}

/// A shift that starts at the first owned message splits nothing: there is no
/// prior context to summarise.
pub proof fn law_shift_at_start_stays(
    owned: Seq<MessageView>,
    shift: crate::topic_detector::TopicShiftView,
)
    requires
        owned.len() == 0 || owned[0].id == shift.at_message_id,
    ensures
        drift_of(owned, Some(shift)) is None,
{
}

/// A candidate below the threshold is never recalled.
pub proof fn law_below_threshold_is_not_recalled(
    brain: Brain,
    results: Seq<crate::memory_index::RelatedConversation>,
)
    requires
        results.len() == 0 || results[0].score < brain.recall_threshold,
    ensures
        accepted(results, brain.recall_threshold) is None,
{
}

// ---------------------------------------------------------------------------
// Whole turns
// ---------------------------------------------------------------------------

/// A turn from its start: its states, the replies and stamps it was handed,
/// and what it asked for.
pub struct Run {
    pub turns: Seq<Turn>,
    pub replies: Seq<Reply>,
    pub stamps: Seq<Stamp>,
    pub requests: Seq<Request>,
}

/// Whether a run is one that the machine can make.
pub open spec fn possible(brain: Brain, run: Run) -> bool {
    &&& run.turns.len() == run.replies.len() + 1
    &&& run.requests.len() == run.turns.len()
    &&& run.stamps.len() == run.replies.len()
    &&& reads_owned(run.turns[0], run.requests[0], OwnedGoal::Drift)
    &&& forall|i: int|
        #![trigger run.replies[i]]
        0 <= i < run.replies.len() ==> expects(run.turns[i].stage, run.replies[i]) && turn_step(
            brain,
            run.turns[i],
            run.replies[i],
            run.stamps[i],
            run.turns[i + 1],
            run.requests[i + 1],
        )
}

/// What a sequence of requests appends, and where.
pub open spec fn appended(requests: Seq<Request>) -> Seq<(ConversationId, MessageView)>
    decreases requests.len(),
{
    if requests.len() == 0 {
        Seq::empty()
    } else {
        match requests.last() {
            Request::Append { conversation, message } => appended(requests.drop_last()).push(
                (conversation, message@),
            ),
            _ => appended(requests.drop_last()),
        }
    }
}

/// A note of the time.
pub open spec fn is_time_note(m: MessageView) -> bool {
    exists|id: MessageId, now: int| m == #[trigger] temporal_view(id, now)
}

/// The log of a recorded turn: the user's message, perhaps behind a note of
/// the time, all in one conversation.
pub open spec fn recorded(
    log: Seq<(ConversationId, MessageView)>,
    conversation: ConversationId,
    user: MessageView,
) -> bool {
    ||| log == seq![(conversation, user)]
    ||| log.len() == 2 && log[0].0 == conversation && is_time_note(log[0].1) && log[1] == (
        conversation,
        user,
    )
}

/// What a turn has appended by the time it is in a stage.
pub open spec fn log_fits(
    turn: Turn,
    request: Request,
    log: Seq<(ConversationId, MessageView)>,
) -> bool {
    match turn.stage {
        Stage::AppendingTime => log.len() == 1 && log[0].0 == turn.conversation && is_time_note(
            log[0].1,
        ),
        Stage::AppendingUser => recorded(log, turn.conversation, turn.user@),
        Stage::ContextGet(ContextGoal::Generation) => recorded(log, turn.conversation, turn.user@),
        Stage::ContextList(ContextGoal::Generation, _) => recorded(
            log,
            turn.conversation,
            turn.user@,
        ),
        Stage::ContextRecalled(ContextGoal::Generation, _, _) => recorded(
            log,
            turn.conversation,
            turn.user@,
        ),
        Stage::ContextSource(reading) => match reading.goal {
            ContextGoal::Generation => recorded(log, turn.conversation, turn.user@),
            ContextGoal::Overflow(_) => log.len() == 0,
        },
        Stage::Finished => request is Generate ==> recorded(log, turn.conversation, turn.user@),
        _ => log.len() == 0,
    }
}

proof fn lemma_log_step(
    brain: Brain,
    before: Turn,
    reply: Reply,
    stamp: Stamp,
    after: Turn,
    asked: Request,
    request: Request,
    log: Seq<(ConversationId, MessageView)>,
)
    requires
        expects(before.stage, reply),
        turn_step(brain, before, reply, stamp, after, request),
        log_fits(before, asked, log),
    ensures
        log_fits(
            after,
            request,
            match request {
                Request::Append { conversation, message } => log.push((conversation, message@)),
                _ => log,
            },
        ),
{
    match (before.stage, reply) {
        (Stage::OwnedList(OwnedGoal::Time, _), Reply::Messages(Ok(_))) => {
            match request {
                Request::Append { conversation, message } => {
                    let next = log.push((conversation, message@));
                    if after.stage is AppendingTime {
                        assert(message@ == temporal_view(stamp.first, stamp.now@));
                        assert(next[0] == (conversation, message@));
                    } else {
                        assert(next =~= seq![(after.conversation, after.user@)]);
                    }
                },
                _ => {},
            }
        },
        (Stage::ContextRecalled(_, _, _), Reply::Recalled(Ok(_))) => {
            let reading = choose|reading: Reading| #[trigger]
                reads_on(after, request, reading) && crate::orchestrator::turn::same_goal(
                    reading.goal,
                    before.stage->ContextRecalled_0,
                );
        },
        (Stage::ContextSource(old_reading), Reply::Conversation(Ok(_))) => {
            let reading = choose|reading: Reading| #[trigger]
                reads_on(after, request, reading) && crate::orchestrator::turn::same_goal(
                    reading.goal,
                    old_reading.goal,
                );
        },
        _ => {},
    }
}

proof fn lemma_log(brain: Brain, run: Run, n: int)
    requires
        possible(brain, run),
        0 <= n < run.turns.len(),
    ensures
        log_fits(run.turns[n], run.requests[n], appended(run.requests.take(n + 1))),
        run.turns[n].user@ == run.turns[0].user@,
    decreases n,
{
    let here = run.requests.take(n + 1);
    assert(here.last() == run.requests[n]);
    assert(here.drop_last() =~= run.requests.take(n));
    if n > 0 {
        lemma_log(brain, run, n - 1);
        let reply = run.replies[n - 1];
        lemma_log_step(
            brain,
            run.turns[n - 1],
            reply,
            run.stamps[n - 1],
            run.turns[n],
            run.requests[n - 1],
            run.requests[n],
            appended(run.requests.take(n)),
        );
    } else {
        assert(appended(run.requests.take(0)).len() == 0);
        assert(here.last() is Get);
        assert(appended(here) == appended(run.requests.take(0)));
    }
}

/// A turn that reaches the answer has appended the user's message exactly
/// once and last, in the conversation that the answer is generated in; the
/// only other thing it may have appended is a note of the time, just before
/// and in the same conversation. Nothing recalled is ever appended.
pub proof fn law_user_message_recorded_once(brain: Brain, run: Run)
    requires
        possible(brain, run),
        run.requests.last() is Generate,
    ensures
        recorded(
            appended(run.requests),
            run.requests.last()->Generate_conversation,
            run.turns[0].user@,
        ),
{
    let n = run.turns.len() - 1;
    lemma_log(brain, run, n);
    assert(run.requests.take(n + 1) =~= run.requests);
    if n > 0 {
        let reply = run.replies[n - 1];
        match (run.turns[n - 1].stage, reply) {
            (Stage::ContextRecalled(_, _, _), Reply::Recalled(Ok(_))) => {
                let reading = choose|reading: Reading| #[trigger]
                    reads_on(run.turns[n], run.requests[n], reading);
            },
            (Stage::ContextSource(_), Reply::Conversation(Ok(_))) => {
                let reading = choose|reading: Reading| #[trigger]
                    reads_on(run.turns[n], run.requests[n], reading);
            },
            _ => {},
        }
    }
}

} // verus!
