//! What each operation of a store changes, and what it leaves as it was.

use vstd::prelude::*;

use crate::conversation_store::{listed, StoreView};
use crate::models::conversation::{ConversationId, ConversationItem, ConversationView};
use crate::models::message::{MessageId, MessageView};
use crate::models::summary::SummaryView;

verus! {

/// Whether two stores hold the same conversations apart from one.
pub open spec fn alike_but_for(a: StoreView, b: StoreView, id: ConversationId) -> bool {
    &&& a.conversations.dom() == b.conversations.dom()
    &&& forall|other: ConversationId|
        other != id && a.has(other) ==> #[trigger] b.conversation(other) == a.conversation(other)
}

/// Whether two conversations are the same but for their entries and the time
/// of the last update.
pub open spec fn same_place(a: ConversationView, b: ConversationView) -> bool {
    &&& a.id == b.id
    &&& a.parent == b.parent
    &&& a.summary == b.summary
    &&& a.created_at == b.created_at
    &&& a.resolved_at == b.resolved_at
}

/// An appended message is stored as it was given and is the last entry of its
/// conversation, as one of its own; the conversation counts as updated then.
/// Nothing else changes.
pub proof fn law_append_changes_its_conversation_alone(
    store: StoreView,
    id: ConversationId,
    m: MessageView,
    now: int,
)
    requires
        store.has(id),
    ensures
        ({
            let after = store.append(id, m, now);
            &&& after.messages.contains_key(m.id.0) && after.messages[m.id.0] == m
            &&& forall|k: u128|
                #![trigger after.messages.contains_key(k)]
                k != m.id.0 ==> after.messages.contains_key(k) == store.messages.contains_key(k)
                    && after.messages[k] == store.messages[k]
            &&& after.conversation(id).items == store.conversation(id).items.push(
                ConversationItem::Message(m.id),
            )
            &&& after.conversation(id).updated_at == now
            &&& same_place(after.conversation(id), store.conversation(id))
            &&& alike_but_for(store, after, id)
            &&& after.current == store.current
        }),
{
    let after = store.append(id, m, now);
    assert(after.conversations.dom() =~= store.conversations.dom());
}

/// Messages appended together are the last entries of their conversation, each
/// as one of its own and in their order.
pub proof fn law_appended_messages_are_its_own(
    store: StoreView,
    id: ConversationId,
    messages: Seq<MessageView>,
    now: int,
)
    requires
        store.has(id),
    ensures
        ({
            let after = store.append_all(id, messages, now);
            let before = store.conversation(id).items;
            &&& after.has(id)
            &&& after.conversation(id).items.len() == before.len() + messages.len()
            &&& after.conversation(id).items.take(before.len() as int) == before
            &&& forall|i: int|
                0 <= i < messages.len() ==> after.conversation(id).items[before.len() + i]
                    == ConversationItem::Message((#[trigger] messages[i]).id)
            &&& messages.len() > 0 ==> after.conversation(id).updated_at == now
            &&& same_place(after.conversation(id), store.conversation(id))
            &&& alike_but_for(store, after, id)
            &&& after.current == store.current
        }),
    decreases messages.len(),
{
    let before = store.conversation(id).items;
    if messages.len() == 0 {
        assert(before.take(before.len() as int) =~= before);
    } else {
        let front = messages.drop_last();
        law_appended_messages_are_its_own(store, id, front, now);
        let mid = store.append_all(id, front, now);
        law_append_changes_its_conversation_alone(mid, id, messages.last(), now);
        let after = store.append_all(id, messages, now);
        assert(after.conversation(id).items.take(before.len() as int) =~= before) by {
            assert(mid.conversation(id).items.take(before.len() as int) == before);
            assert forall|i: int| 0 <= i < before.len() implies after.conversation(id).items[i]
                == before[i] by {
                assert(mid.conversation(id).items.take(before.len() as int)[i]
                    == mid.conversation(id).items[i]);
            }
        }
        assert forall|i: int| 0 <= i < messages.len() implies after.conversation(
            id,
        ).items[before.len() + i] == ConversationItem::Message((#[trigger] messages[i]).id) by {
            if i < front.len() {
                assert(front[i] == messages[i]);
            }
        }
    }
}

/// Messages that are shared into a conversation are its last entries, each as
/// one that it shares and in their order; no message is stored anew, and no
/// other conversation changes.
pub proof fn law_shared_messages_are_not_its_own(
    store: StoreView,
    id: ConversationId,
    ids: Seq<MessageId>,
    now: int,
)
    requires
        store.has(id),
    ensures
        ({
            let after = store.reference(id, ids, now);
            let before = store.conversation(id).items;
            &&& after.messages == store.messages
            &&& after.conversation(id).items.len() == before.len() + ids.len()
            &&& after.conversation(id).items.take(before.len() as int) == before
            &&& forall|i: int|
                0 <= i < ids.len() ==> after.conversation(id).items[before.len() + i]
                    == ConversationItem::ReferencedMessage(#[trigger] ids[i])
            &&& after.conversation(id).updated_at == now
            &&& same_place(after.conversation(id), store.conversation(id))
            &&& alike_but_for(store, after, id)
            &&& after.current == store.current
        }),
{
    let after = store.reference(id, ids, now);
    let before = store.conversation(id).items;
    assert(after.conversation(id).items.take(before.len() as int) =~= before);
    assert(after.conversations.dom() =~= store.conversations.dom());
}

/// A summary that is set is there, and its conversation counts as updated;
/// what any conversation lists stays as it was.
pub proof fn law_summary_is_set(
    store: StoreView,
    id: ConversationId,
    summary: SummaryView,
    now: int,
    other: ConversationId,
)
    requires
        store.has(id),
    ensures
        ({
            let after = store.summarize(id, summary, now);
            &&& after.conversation(id).summary == Some(summary)
            &&& after.conversation(id).updated_at == now
            &&& after.conversation(id).items == store.conversation(id).items
            &&& after.conversation(id).parent == store.conversation(id).parent
            &&& after.conversation(id).resolved_at == store.conversation(id).resolved_at
            &&& after.list(other) == store.list(other)
            &&& alike_but_for(store, after, id)
            &&& after.messages == store.messages
            &&& after.current == store.current
        }),
{
    let after = store.summarize(id, summary, now);
    assert(after.conversations.dom() =~= store.conversations.dom());
}

/// Resolving a branch leaves the entries of the branch as they were and adds
/// the payload to those of its parent, as messages of the parent's own. No
/// third conversation changes.
pub proof fn law_payload_belongs_to_the_parent(
    store: StoreView,
    child: ConversationId,
    parent: ConversationId,
    payload: Seq<MessageView>,
    now: int,
    third: ConversationId,
)
    requires
        store.has(child),
        store.has(parent),
        parent != child,
    ensures
        ({
            let after = store.resolve(child, parent, payload, now);
            let before = store.conversation(parent).items;
            &&& after.conversation(child).items == store.conversation(child).items
            &&& after.conversation(child).resolved_at == Some(now)
            &&& after.conversation(child).updated_at == now
            &&& after.conversation(parent).items.len() == before.len() + payload.len()
            &&& after.conversation(parent).items.take(before.len() as int) == before
            &&& forall|i: int|
                0 <= i < payload.len() ==> after.conversation(parent).items[before.len() + i]
                    == ConversationItem::Message((#[trigger] payload[i]).id)
            &&& after.conversation(parent).resolved_at == store.conversation(parent).resolved_at
            &&& third != child && third != parent && store.has(third) ==> after.conversation(third)
                == store.conversation(third)
            &&& after.current == Some(parent)
        }),
{
    law_appended_messages_are_its_own(store, parent, payload, now);
    let delivered = store.append_all(parent, payload, now);
    assert(delivered.conversations.dom().contains(child.0));
    assert(delivered.conversation(child) == store.conversation(child));
    if third != child && third != parent && store.has(third) {
        assert(delivered.conversation(third) == store.conversation(third));
    }
}

/// A branch can be resolved exactly if it is there, has a parent and was not
/// resolved before.
pub proof fn law_open_branch_has_a_parent(
    store: StoreView,
    child: ConversationId,
    parent: ConversationId,
)
    ensures
        store.open_parent(child) == Some(parent) <==> store.has(child) && store.conversation(
            child,
        ).parent == Some(parent) && store.conversation(child).resolved_at is None,
{
}

/// A conversation lists the message of each entry that is stored, its own and
/// shared ones alike, in the order of the entries.
pub proof fn law_entries_are_listed_in_order(
    messages: Map<u128, MessageView>,
    items: Seq<ConversationItem>,
    id: MessageId,
)
    ensures
        listed(messages, Seq::empty()).len() == 0,
        messages.contains_key(id.0) ==> {
            &&& listed(messages, items.push(ConversationItem::Message(id))) == listed(
                messages,
                items,
            ).push(messages[id.0])
            &&& listed(messages, items.push(ConversationItem::ReferencedMessage(id))) == listed(
                messages,
                items,
            ).push(messages[id.0])
        },
        !messages.contains_key(id.0) ==> {
            &&& listed(messages, items.push(ConversationItem::Message(id))) == listed(
                messages,
                items,
            )
            &&& listed(messages, items.push(ConversationItem::ReferencedMessage(id))) == listed(
                messages,
                items,
            )
        },
{
    assert(items.push(ConversationItem::Message(id)).drop_last() =~= items);
    assert(items.push(ConversationItem::ReferencedMessage(id)).drop_last() =~= items);
}

/// A new conversation is there, and every other stays as it was.
pub proof fn law_new_conversation_is_there(
    store: StoreView,
    c: ConversationView,
    other: ConversationId,
)
    ensures
        store.with_conversation(c).has(c.id),
        store.with_conversation(c).conversation(c.id) == c,
        other != c.id ==> store.with_conversation(c).has(other) == store.has(other)
            && store.with_conversation(c).conversation(other) == store.conversation(other),
        store.with_conversation(c).messages == store.messages,
        store.with_conversation(c).current == store.current,
{
}

} // verus!
