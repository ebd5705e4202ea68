//! A conversation store that lives in memory.

use std::collections::HashMap;

use vstd::prelude::*;
use vstd::string::*;

use crate::conversation_store::{listed, StoreView};
use crate::failure::Failure;
use crate::identity::hyphenated;
use crate::models::conversation::{Conversation, ConversationId, ConversationItem, ConversationView};
use crate::models::message::{Message, MessageId, MessageView};
use crate::models::summary::Summary;
use crate::time::Timestamp;

verus! {

broadcast use vstd::std_specs::hash::group_hash_axioms;

/// Conversations and messages by identity, and the current conversation.
pub struct InMemoryConversationStore {
    conversations: HashMap<u128, Conversation>,
    messages: HashMap<u128, Message>,
    current: Option<ConversationId>,
}

impl View for InMemoryConversationStore {
    type V = StoreView;

    closed spec fn view(&self) -> StoreView {
        StoreView {
            conversations: self.conversations@.map_values(|c: Conversation| c@),
            messages: self.messages@.map_values(|m: Message| m@),
            current: self.current,
        }
    }
}

/// The text for a branch without a parent.
pub open spec fn no_parent_text(child: ConversationId) -> Seq<char> {
    "child "@ + hyphenated(child.0) + " has no parent"@
}

/// The text for a branch that is closed already.
pub open spec fn resolved_text(child: ConversationId) -> Seq<char> {
    "branch "@ + hyphenated(child.0) + " is already resolved"@
}

impl Default for InMemoryConversationStore {
    fn default() -> (r: Self)
        ensures
            r@ == StoreView::empty(),
    {
        Self::new()
    }
}

impl InMemoryConversationStore {
    pub fn new() -> (r: Self)
        ensures
            r@ == StoreView::empty(),
    {
        let r = InMemoryConversationStore {
            conversations: HashMap::new(),
            messages: HashMap::new(),
            current: None,
        };
        assert(r@ =~= StoreView::empty());
        r
    }

    /// Puts a conversation in place. The first one becomes current.
    pub fn add_conversation(&mut self, conversation: Conversation)
        ensures
            final(self)@ == (StoreView {
                current: if old(self)@.current is None {
                    Some(conversation@.id)
                } else {
                    old(self)@.current
                },
                ..old(self)@.with_conversation(conversation@)
            }),
    {
        let id = conversation.id;
        if self.current.is_none() {
            self.current = Some(id);
        }
        self.conversations.insert(id.0, conversation);
        assert(self@.conversations =~= old(self)@.with_conversation(conversation@).conversations);
    }

    fn store_message(&mut self, message: Message)
        ensures
            final(self)@ == (StoreView {
                messages: old(self)@.messages.insert(message@.id.0, message@),
                ..old(self)@
            }),
            final(self).conversations == old(self).conversations,
            final(self).current == old(self).current,
    {
        let ghost m = message@;
        self.messages.insert(message.id.0, message);
        assert(self@.messages =~= old(self)@.messages.insert(m.id.0, m));
    }

    /// Lists entries behind those of a conversation, if it is there. With a
    /// time, the conversation counts as updated then.
    fn add_items(&mut self, id: ConversationId, items: &Vec<ConversationItem>, now: Option<Timestamp>)
        ensures
            final(self)@ == old(self)@.with_changed(
                id,
                ConversationView {
                    items: old(self)@.conversation(id).items + items@,
                    updated_at: match now {
                        Some(t) => t@,
                        None => old(self)@.conversation(id).updated_at,
                    },
                    ..old(self)@.conversation(id)
                },
            ),
            final(self).messages == old(self).messages,
    {
        let ghost before = self@;
        match self.conversations.remove(&id.0) {
            Some(mut c) => {
                let ghost was = c@;
                assert(was == before.conversation(id));
                let mut i: usize = 0;
                while i < items.len()
                    invariant
                        i <= items@.len(),
                        c@ == (ConversationView {
                            items: was.items + items@.take(i as int),
                            ..was
                        }),
                    decreases items@.len() - i,
                {
                    let ghost had = c.items@;
                    c.items.push(items[i]);
                    assert(c.items@ =~= was.items + items@.take(i + 1));
                    i += 1;
                }
                assert(items@.take(i as int) =~= items@);
                match now {
                    Some(t) => {
                        c.updated_at = t;
                    },
                    None => {},
                }
                let ghost is = c@;
                self.conversations.insert(id.0, c);
                assert(self@.conversations =~= before.conversations.insert(id.0, is));
            },
            None => {
                assert(self@.conversations =~= before.conversations);
            },
        }
    }

    /// Stores a message and lists it as a referenced one.
    pub fn add_referenced_message(&mut self, conversation_id: ConversationId, message: Message)
        ensures
            final(self)@ == (StoreView {
                messages: old(self)@.messages.insert(message@.id.0, message@),
                ..old(self)@
            }).with_changed(
                conversation_id,
                ConversationView {
                    items: old(self)@.conversation(conversation_id).items.push(
                        ConversationItem::ReferencedMessage(message@.id),
                    ),
                    ..old(self)@.conversation(conversation_id)
                },
            ),
    {
        let id = message.id;
        self.store_message(message);
        let mut items: Vec<ConversationItem> = Vec::new();
        items.push(ConversationItem::ReferencedMessage(id));
        self.add_items(conversation_id, &items, None);
        assert(old(self)@.conversation(conversation_id).items + items@ =~= old(self)@.conversation(
            conversation_id,
        ).items.push(ConversationItem::ReferencedMessage(id)));
    }

    pub fn get_conversation(&self, id: ConversationId) -> (r: Option<Conversation>)
        ensures
            match r {
                Some(c) => self@.has(id) && c@ == self@.conversation(id),
                None => !self@.has(id),
            },
    {
        match self.conversations.get(&id.0) {
            Some(c) => Some(c.clone()),
            None => None,
        }
    }

    pub fn get_message(&self, id: MessageId) -> (r: Option<Message>)
        ensures
            match r {
                Some(m) => self@.messages.contains_key(id.0) && m@ == self@.messages[id.0],
                None => !self@.messages.contains_key(id.0),
            },
    {
        match self.messages.get(&id.0) {
            Some(m) => Some(m.clone()),
            None => None,
        }
    }

    /// The conversation that the next turn lands in.
    pub fn current(&self) -> (r: Result<ConversationId, Failure>)
        ensures
            match r {
                Ok(id) => self@.current == Some(id),
                Err(failure) => self@.current is None && failure@ == "no current conversation"@,
            },
    {
        match self.current {
            Some(id) => Ok(id),
            None => Err(Failure::new("no current conversation")),
        }
    }

    pub fn set_current(&mut self, id: ConversationId)
        ensures
            final(self)@ == (StoreView { current: Some(id), ..old(self)@ }),
    {
        self.current = Some(id);
    }

    /// A new conversation: of a fresh identity, empty, open, and without a
    /// summary.
    pub fn create(&mut self, parent: Option<ConversationId>) -> (r: Conversation)
        ensures
            crate::identity::version_of(r@.id.0) == 4,
            crate::identity::variant_of(r@.id.0) == 2,
            r@ == (ConversationView {
                id: r@.id,
                parent,
                items: Seq::empty(),
                summary: None,
                created_at: r@.created_at,
                updated_at: r@.created_at,
                resolved_at: None,
            }),
            final(self)@ == old(self)@.with_conversation(r@),
    {
        let id = ConversationId::new();
        let now = Timestamp::now();
        let conversation = Conversation {
            id,
            parent,
            items: Vec::new(),
            summary: None,
            created_at: now,
            updated_at: now,
            resolved_at: None,
        };
        self.conversations.insert(id.0, conversation.clone());
        assert(self@.conversations =~= old(self)@.with_conversation(conversation@).conversations);
        conversation
    }

    fn append_at(&mut self, conversation_id: ConversationId, message: Message, now: Timestamp)
        ensures
            final(self)@ == old(self)@.append(conversation_id, message@, now@),
    {
        let id = message.id;
        self.store_message(message);
        let mut items: Vec<ConversationItem> = Vec::new();
        items.push(ConversationItem::Message(id));
        self.add_items(conversation_id, &items, Some(now));
        assert(old(self)@.conversation(conversation_id).items + items@ =~= old(self)@.conversation(
            conversation_id,
        ).items.push(ConversationItem::Message(id)));
    }

    fn append_all_at(
        &mut self,
        conversation_id: ConversationId,
        messages: Vec<Message>,
        now: Timestamp,
    )
        ensures
            final(self)@ == old(self)@.append_all(conversation_id, messages.deep_view(), now@),
    {
        let ghost all = messages.deep_view();
        let ghost before = self@;
        let mut i: usize = 0;
        assert(all.take(0).len() == 0);
        while i < messages.len()
            invariant
                i <= messages@.len(),
                all == messages.deep_view(),
                self@ == before.append_all(conversation_id, all.take(i as int), now@),
            decreases messages@.len() - i,
        {
            assert(all.take(i + 1).drop_last() =~= all.take(i as int));
            assert(all.take(i + 1).last() == messages@[i as int]@);
            self.append_at(conversation_id, messages[i].clone(), now);
            i += 1;
        }
        assert(all.take(i as int) =~= all);
    }

    /// Stores a message and lists it last in a conversation.
    pub fn append_message(&mut self, conversation_id: ConversationId, message: Message)
        ensures
            exists|now: int|
                final(self)@ == #[trigger] old(self)@.append(conversation_id, message@, now),
    {
        let now = Timestamp::now();
        self.append_at(conversation_id, message, now);
    }

    /// Stores messages and lists them last in a conversation, side by side.
    pub fn append_messages(&mut self, conversation_id: ConversationId, messages: Vec<Message>)
        ensures
            exists|now: int|
                final(self)@ == #[trigger] old(self)@.append_all(
                    conversation_id,
                    messages.deep_view(),
                    now,
                ),
    {
        let now = Timestamp::now();
        self.append_all_at(conversation_id, messages, now);
    }

    /// Shares messages into a conversation.
    pub fn reference_messages(&mut self, conversation_id: ConversationId, message_ids: Vec<MessageId>)
        ensures
            exists|now: int|
                final(self)@ == #[trigger] old(self)@.reference(conversation_id, message_ids@, now),
    {
        let mut items: Vec<ConversationItem> = Vec::new();
        let mut i: usize = 0;
        while i < message_ids.len()
            invariant
                i <= message_ids@.len(),
                items@.len() == i,
                forall|k: int|
                    0 <= k < i ==> #[trigger] items@[k] == ConversationItem::ReferencedMessage(
                        message_ids@[k],
                    ),
            decreases message_ids@.len() - i,
        {
            items.push(ConversationItem::ReferencedMessage(message_ids[i]));
            i += 1;
        }
        assert(items@ =~= message_ids@.map_values(
            |m: MessageId| ConversationItem::ReferencedMessage(m),
        ));
        let now = Timestamp::now();
        self.add_items(conversation_id, &items, Some(now));
        assert(self@ == old(self)@.reference(conversation_id, message_ids@, now@));
    }

    pub fn update_summary(&mut self, conversation_id: ConversationId, summary: Summary)
        ensures
            exists|now: int|
                final(self)@ == #[trigger] old(self)@.summarize(conversation_id, summary@, now),
    {
        let ghost before = self@;
        let ghost given = summary@;
        let now = Timestamp::now();
        match self.conversations.remove(&conversation_id.0) {
            Some(mut c) => {
                c.summary = Some(summary);
                c.updated_at = now;
                let ghost is = c@;
                self.conversations.insert(conversation_id.0, c);
                assert(self@.conversations =~= before.conversations.insert(conversation_id.0, is));
            },
            None => {
                assert(self@.conversations =~= before.conversations);
            },
        }
        assert(self@ == before.summarize(conversation_id, given, now@));
    }

    pub fn get(&self, id: ConversationId) -> (r: Option<Conversation>)
        ensures
            match r {
                Some(c) => self@.has(id) && c@ == self@.conversation(id),
                None => !self@.has(id),
            },
    {
        self.get_conversation(id)
    }

    /// The messages of a conversation, owned and referenced, in order.
    pub fn list_messages(&self, conversation_id: ConversationId) -> (r: Vec<Message>)
        ensures
            r.deep_view() == self@.list(conversation_id),
    {
        let mut r: Vec<Message> = Vec::new();
        match self.conversations.get(&conversation_id.0) {
            Some(c) => {
                let ghost items = c.items@;
                let mut i: usize = 0;
                assert(r.deep_view() =~= listed(self@.messages, items.take(0)));
                while i < c.items.len()
                    invariant
                        i <= c.items@.len(),
                        items == c.items@,
                        r.deep_view() == listed(self@.messages, items.take(i as int)),
                    decreases c.items@.len() - i,
                {
                    assert(items.take(i + 1).drop_last() =~= items.take(i as int));
                    assert(items.take(i + 1).last() == items[i as int]);
                    let id = c.items[i].message_id();
                    match self.messages.get(&id.0) {
                        Some(m) => {
                            let ghost before = r.deep_view();
                            r.push(m.clone());
                            assert(r.deep_view() =~= before.push(m@));
                        },
                        None => {},
                    }
                    i += 1;
                }
                assert(items.take(i as int) =~= items);
            },
            None => {
                assert(r.deep_view() =~= Seq::<MessageView>::empty());
            },
        }
        r
    }

    /// Resolves a branch: the payload goes to the parent, the branch is
    /// closed, and the parent is current again, all or nothing. A branch
    /// without a parent or one that is closed already is refused and nothing
    /// changes.
    pub fn resolve_branch(&mut self, child_id: ConversationId, payload: Vec<Message>) -> (r: Result<
        (),
        Failure,
    >)
        ensures
            match r {
                Ok(_) => old(self)@.open_parent(child_id) matches Some(parent) && exists|now: int|
                    final(self)@ == #[trigger] old(self)@.resolve(
                        child_id,
                        parent,
                        payload.deep_view(),
                        now,
                    ),
                Err(failure) => {
                    &&& final(self)@ == old(self)@
                    &&& if !old(self)@.has(child_id) || old(self)@.conversation(child_id).parent
                        is None {
                        failure@ == no_parent_text(child_id)
                    } else {
                        &&& old(self)@.conversation(child_id).resolved_at is Some
                        &&& failure@ == resolved_text(child_id)
                    }
                },
            },
            r is Ok <==> old(self)@.open_parent(child_id) is Some,
    {
        let found = match self.conversations.get(&child_id.0) {
            Some(c) => match c.parent {
                Some(parent) => Some((parent, c.resolved_at.is_some())),
                None => None,
            },
            None => None,
        };
        match found {
            Some((parent, resolved)) => {
                if resolved {
                    let mut message = "branch ".to_owned();
                    message.append(child_id.to_string().as_str());
                    message.append(" is already resolved");
                    return Err(Failure { message });
                }
                let now = Timestamp::now();
                let ghost all = payload.deep_view();
                let ghost before = self@;
                self.append_all_at(parent, payload, now);
                let ghost delivered = self@;
                match self.conversations.remove(&child_id.0) {
                    Some(mut c) => {
                        c.resolved_at = Some(now);
                        c.updated_at = now;
                        let ghost is = c@;
                        self.conversations.insert(child_id.0, c);
                        assert(self@.conversations =~= delivered.conversations.insert(
                            child_id.0,
                            is,
                        ));
                    },
                    None => {
                        assert(self@.conversations =~= delivered.conversations);
                    },
                }
                self.current = Some(parent);
                assert(self@ == before.resolve(child_id, parent, all, now@));
                Ok(())
            },
            None => {
                let mut message = "child ".to_owned();
                message.append(child_id.to_string().as_str());
                message.append(" has no parent");
                Err(Failure { message })
            },
        }
    }
}

} // verus!
