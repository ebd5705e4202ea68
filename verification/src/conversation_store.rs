//! What a conversation store holds and what its operations do.

use vstd::prelude::*;

use crate::models::conversation::{ConversationId, ConversationItem, ConversationView};
use crate::models::message::{MessageId, MessageView};
use crate::models::summary::SummaryView;

verus! {

/// The contents of a store: its conversations and messages by identity, and
/// the conversation that the next turn lands in.
#[verifier::ext_equal]
pub struct StoreView {
    pub conversations: Map<u128, ConversationView>,
    pub messages: Map<u128, MessageView>,
    pub current: Option<ConversationId>,
}

impl StoreView {
    pub open spec fn empty() -> StoreView {
        StoreView { conversations: Map::empty(), messages: Map::empty(), current: None }
    }

    pub open spec fn has(self, id: ConversationId) -> bool {
        self.conversations.contains_key(id.0)
    }

    pub open spec fn conversation(self, id: ConversationId) -> ConversationView {
        self.conversations[id.0]
    }

    /// The store with a conversation put under its identity.
    pub open spec fn with_conversation(self, c: ConversationView) -> StoreView {
        StoreView { conversations: self.conversations.insert(c.id.0, c), ..self }
    }

    /// The store with the conversation under `id` replaced, if it is there.
    pub open spec fn with_changed(self, id: ConversationId, c: ConversationView) -> StoreView {
        if self.has(id) {
            StoreView { conversations: self.conversations.insert(id.0, c), ..self }
        } else {
            self
        }
    }

    /// The store with a message stored, and listed last in a conversation.
    pub open spec fn append(self, id: ConversationId, m: MessageView, now: int) -> StoreView {
        let c = self.conversation(id);
        StoreView { messages: self.messages.insert(m.id.0, m), ..self }.with_changed(
            id,
            ConversationView {
                items: c.items.push(ConversationItem::Message(m.id)),
                updated_at: now,
                ..c
            },
        )
    }

    /// The store with several messages appended, one after the other.
    pub open spec fn append_all(
        self,
        id: ConversationId,
        messages: Seq<MessageView>,
        now: int,
    ) -> StoreView
        decreases messages.len(),
    {
        if messages.len() == 0 {
            self
        } else {
            self.append_all(id, messages.drop_last(), now).append(id, messages.last(), now)
        }
    }

    /// The store with messages shared into a conversation.
    pub open spec fn reference(
        self,
        id: ConversationId,
        messages: Seq<MessageId>,
        now: int,
    ) -> StoreView {
        let c = self.conversation(id);
        self.with_changed(
            id,
            ConversationView {
                items: c.items + messages.map_values(
                    |m: MessageId| ConversationItem::ReferencedMessage(m),
                ),
                updated_at: now,
                ..c
            },
        )
    }

    /// The store with a conversation's summary set.
    pub open spec fn summarize(self, id: ConversationId, summary: SummaryView, now: int) -> StoreView {
        let c = self.conversation(id);
        self.with_changed(id, ConversationView { summary: Some(summary), updated_at: now, ..c })
    }

    /// The parent of a branch that can be resolved: one that has a parent and
    /// is still open.
    pub open spec fn open_parent(self, child: ConversationId) -> Option<ConversationId> {
        if self.has(child) && self.conversation(child).resolved_at is None {
            self.conversation(child).parent
        } else {
            None
        }
    }

    /// The store with a branch resolved: the payload is appended to the
    /// parent, the branch is marked and the parent is current again.
    pub open spec fn resolve(
        self,
        child: ConversationId,
        parent: ConversationId,
        payload: Seq<MessageView>,
        now: int,
    ) -> StoreView {
        let delivered = self.append_all(parent, payload, now);
        let c = delivered.conversation(child);
        StoreView {
            current: Some(parent),
            ..delivered.with_changed(
                child,
                ConversationView { resolved_at: Some(now), updated_at: now, ..c },
            )
        }
    }

    /// The messages that a conversation lists, owned and referenced, in
    /// order. An entry whose message is not stored lists nothing.
    pub open spec fn list(self, id: ConversationId) -> Seq<MessageView> {
        if self.has(id) {
            listed(self.messages, self.conversation(id).items)
        } else {
            Seq::empty()
        }
    }

    /// Whether an entry of a conversation points at a message.
    pub open spec fn names(self, id: ConversationId, m: MessageId) -> bool {
        self.has(id) && exists|i: int|
            0 <= i < self.conversation(id).items.len() && (
            #[trigger] self.conversation(id).items[i]).target() == m
    }
}

/// The messages that entries point at, in order.
pub open spec fn listed(
    messages: Map<u128, MessageView>,
    items: Seq<ConversationItem>,
) -> Seq<MessageView>
    decreases items.len(),
{
    if items.len() == 0 {
        Seq::empty()
    } else {
        let before = listed(messages, items.drop_last());
        let id = items.last().target().0;
        if messages.contains_key(id) {
            before.push(messages[id])
        } else {
            before
        }
    }
}

// ---------------------------------------------------------------------------
// Laws
// ---------------------------------------------------------------------------

proof fn lemma_listed_same(
    a: Map<u128, MessageView>,
    b: Map<u128, MessageView>,
    items: Seq<ConversationItem>,
)
    requires
        forall|i: int|
            #![trigger items[i]]
            0 <= i < items.len() ==> a.contains_key(items[i].target().0) == b.contains_key(
                items[i].target().0,
            ) && (a.contains_key(items[i].target().0) ==> a[items[i].target().0]
                == b[items[i].target().0]),
    ensures
        listed(a, items) == listed(b, items),
    decreases items.len(),
{
    if items.len() > 0 {
        let rest = items.drop_last();
        assert forall|i: int|
            #![trigger rest[i]]
            0 <= i < rest.len() implies a.contains_key(rest[i].target().0) == b.contains_key(
            rest[i].target().0,
        ) && (a.contains_key(rest[i].target().0) ==> a[rest[i].target().0]
            == b[rest[i].target().0]) by {
            assert(rest[i] == items[i]);
        }
        lemma_listed_same(a, b, rest);
        assert(items.last() == items[items.len() - 1]);
    }
}

/// A message that no entry of a conversation points at lists nothing there,
/// so that storing it changes nothing in what the conversation lists.
proof fn lemma_unnamed(store: StoreView, id: ConversationId, m: MessageView)
    requires
        store.has(id),
        !store.names(id, m.id),
    ensures
        listed(store.messages.insert(m.id.0, m), store.conversation(id).items) == store.list(id),
{
    let items = store.conversation(id).items;
    assert forall|i: int|
        #![trigger items[i]]
        0 <= i < items.len() implies items[i].target().0 != m.id.0 by {
        assert(store.conversation(id).items[i].target() != m.id);
    }
    lemma_listed_same(store.messages.insert(m.id.0, m), store.messages, items);
}

/// A message that no entry of a conversation points at yet is listed last
/// there once it is appended. What another conversation lists does not change,
/// if none of its entries points at the message.
pub proof fn law_appended_message_is_listed_last(
    store: StoreView,
    id: ConversationId,
    m: MessageView,
    now: int,
    other: ConversationId,
)
    requires
        store.has(id),
        !store.names(id, m.id),
    ensures
        store.append(id, m, now).list(id) == store.list(id).push(m),
        other != id && !store.names(other, m.id) ==> store.append(id, m, now).list(other)
            == store.list(other),
{
    let next = store.append(id, m, now);
    let grown = next.conversation(id).items;
    assert(grown.drop_last() =~= store.conversation(id).items);
    assert(grown.last() == ConversationItem::Message(m.id));
    lemma_unnamed(store, id, m);
    if other != id && store.has(other) && !store.names(other, m.id) {
        lemma_unnamed(store, other, m);
    }
}

/// Whether messages differ from each other and no entry of a conversation
/// points at one of them.
pub open spec fn fresh(store: StoreView, id: ConversationId, messages: Seq<MessageView>) -> bool {
    &&& forall|i: int| 0 <= i < messages.len() ==> !store.names(id, (#[trigger] messages[i]).id)
    &&& forall|i: int, j: int|
        0 <= i < j < messages.len() ==> (#[trigger] messages[i]).id != (#[trigger] messages[j]).id
}

proof fn lemma_fresh_front(store: StoreView, id: ConversationId, messages: Seq<MessageView>)
    requires
        fresh(store, id, messages),
        messages.len() > 0,
    ensures
        fresh(store, id, messages.drop_last()),
        !store.names(id, messages.last().id),
{
    let front = messages.drop_last();
    assert forall|i: int| 0 <= i < front.len() implies !store.names(
        id,
        (#[trigger] front[i]).id,
    ) by {
        assert(front[i] == messages[i]);
    }
    assert forall|i: int, j: int| 0 <= i < j < front.len() implies (#[trigger] front[i]).id != (
    #[trigger] front[j]).id by {
        assert(front[i] == messages[i] && front[j] == messages[j]);
    }
    assert(messages.last() == messages[messages.len() - 1]);
}

/// Appending adds one entry for each message to the conversation, and none to
/// any other.
proof fn lemma_entries(
    store: StoreView,
    id: ConversationId,
    messages: Seq<MessageView>,
    now: int,
)
    requires
        store.has(id),
    ensures
        ({
            let next = store.append_all(id, messages, now);
            &&& next.has(id)
            &&& next.conversation(id).items == store.conversation(id).items + messages.map_values(
                |m: MessageView| ConversationItem::Message(m.id),
            )
            &&& next.conversations.dom() == store.conversations.dom()
            &&& forall|k: u128|
                #![trigger next.conversations[k]]
                k != id.0 ==> next.conversations[k] == store.conversations[k]
        }),
    decreases messages.len(),
{
    let added = messages.map_values(|m: MessageView| ConversationItem::Message(m.id));
    let items = store.conversation(id).items;
    if messages.len() == 0 {
        assert(items + added =~= items);
    } else {
        let front = messages.drop_last();
        lemma_entries(store, id, front, now);
        let next = store.append_all(id, messages, now);
        assert(next.conversation(id).items =~= items + added);
        assert(next.conversations.dom() =~= store.conversations.dom());
    }
}

/// Messages that differ and that no entry of a conversation points at yet are
/// listed last there once they are appended together, side by side and in
/// their order. What another conversation lists does not change, if none of
/// its entries points at one of them.
pub proof fn law_appended_messages_stay_together(
    store: StoreView,
    id: ConversationId,
    messages: Seq<MessageView>,
    now: int,
    other: ConversationId,
)
    requires
        store.has(id),
        fresh(store, id, messages),
    ensures
        store.append_all(id, messages, now).list(id) == store.list(id) + messages,
        other != id && fresh(store, other, messages) ==> store.append_all(id, messages, now).list(
            other,
        ) == store.list(other),
    decreases messages.len(),
{
    if messages.len() > 0 {
        let front = messages.drop_last();
        let m = messages.last();
        lemma_fresh_front(store, id, messages);
        law_appended_messages_stay_together(store, id, front, now, other);
        lemma_entries(store, id, front, now);
        let mid = store.append_all(id, front, now);
        let items = store.conversation(id).items;
        assert(!mid.names(id, m.id)) by {
            if mid.names(id, m.id) {
                let i = choose|i: int|
                    0 <= i < mid.conversation(id).items.len() && (
                    #[trigger] mid.conversation(id).items[i]).target() == m.id;
                if i < items.len() {
                    assert(store.conversation(id).items[i].target() == m.id);
                } else {
                    assert(messages[i - items.len()].id == messages[messages.len() - 1].id);
                }
            }
        }
        if other != id && fresh(store, other, messages) {
            lemma_fresh_front(store, other, messages);
            assert(mid.conversations[other.0] == store.conversations[other.0]);
            assert(mid.conversations.dom().contains(other.0) == store.conversations.dom().contains(
                other.0,
            ));
            assert(!mid.names(other, m.id)) by {
                if mid.names(other, m.id) {
                    let i = choose|i: int|
                        0 <= i < mid.conversation(other).items.len() && (
                        #[trigger] mid.conversation(other).items[i]).target() == m.id;
                    assert(store.conversation(other).items[i].target() == m.id);
                }
            }
        }
        law_appended_message_is_listed_last(mid, id, m, now, other);
        assert((store.list(id) + front).push(m) =~= store.list(id) + messages);
    } else {
        assert(store.list(id) + messages =~= store.list(id));
    }
}

/// Resolving an open branch with messages that no entry of the parent points
/// at yet: the parent lists them last and side by side, the branch is closed,
/// and the parent is current again. The branch lists what it did, if none of
/// its entries points at one of them.
pub proof fn law_resolved_branch_delivers_to_its_parent(
    store: StoreView,
    child: ConversationId,
    parent: ConversationId,
    payload: Seq<MessageView>,
    now: int,
)
    requires
        store.open_parent(child) == Some(parent),
        store.has(parent),
        parent != child,
        fresh(store, parent, payload),
    ensures
        ({
            let after = store.resolve(child, parent, payload, now);
            &&& after.list(parent) == store.list(parent) + payload
            &&& fresh(store, child, payload) ==> after.list(child) == store.list(child)
            &&& after.conversation(child).resolved_at == Some(now)
            &&& after.open_parent(child) is None
            &&& after.current == Some(parent)
        }),
{
    law_appended_messages_stay_together(store, parent, payload, now, child);
    lemma_entries(store, parent, payload, now);
    let delivered = store.append_all(parent, payload, now);
    assert(delivered.conversations.dom().contains(child.0));
    assert(delivered.conversations[child.0] == store.conversations[child.0]);
}

/// Messages that a store holds and that are shared into a conversation are
/// listed last there, in the order given.
pub proof fn law_referenced_messages_are_listed_last(
    store: StoreView,
    id: ConversationId,
    ids: Seq<MessageId>,
    now: int,
)
    requires
        store.has(id),
        forall|i: int|
            0 <= i < ids.len() ==> store.messages.contains_key((#[trigger] ids[i]).0),
    ensures
        store.reference(id, ids, now).list(id) == store.list(id) + ids.map_values(
            |m: MessageId| store.messages[m.0],
        ),
{
    lemma_listed_references(store.messages, store.conversation(id).items, ids);
}

proof fn lemma_listed_references(
    messages: Map<u128, MessageView>,
    items: Seq<ConversationItem>,
    ids: Seq<MessageId>,
)
    requires
        forall|i: int| 0 <= i < ids.len() ==> messages.contains_key((#[trigger] ids[i]).0),
    ensures
        listed(
            messages,
            items + ids.map_values(|m: MessageId| ConversationItem::ReferencedMessage(m)),
        ) == listed(messages, items) + ids.map_values(|m: MessageId| messages[m.0]),
    decreases ids.len(),
{
    let refs = ids.map_values(|m: MessageId| ConversationItem::ReferencedMessage(m));
    if ids.len() == 0 {
        assert(items + refs =~= items);
        assert(listed(messages, items) + ids.map_values(|m: MessageId| messages[m.0]) =~= listed(
            messages,
            items,
        ));
    } else {
        let front = ids.drop_last();
        lemma_listed_references(messages, items, front);
        let front_refs = front.map_values(|m: MessageId| ConversationItem::ReferencedMessage(m));
        assert((items + refs).drop_last() =~= items + front_refs);
        assert((items + refs).last() == ConversationItem::ReferencedMessage(ids.last()));
        assert(messages.contains_key(ids[ids.len() - 1].0));
        assert((listed(messages, items) + front.map_values(|m: MessageId| messages[m.0])).push(
            messages[ids.last().0],
        ) =~= listed(messages, items) + ids.map_values(|m: MessageId| messages[m.0]));
    }
}

} // verus!
