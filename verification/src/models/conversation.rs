use vstd::prelude::*;

use crate::identity::{id_text, random_id};
use crate::models::message::MessageId;
use crate::models::summary::{Summary, SummaryView};
use crate::time::Timestamp;

verus! {

/// The identity of a conversation: 128 bits, random.
#[derive(Debug, Clone, Copy, PartialEq, Eq, Hash, Structural)]
pub struct ConversationId(pub u128);

impl DeepView for ConversationId {
    type V = u128;

    open spec fn deep_view(&self) -> u128 {
        self.0
    }
}

impl ConversationId {
    /// A fresh, random identity.
    pub fn new() -> (id: ConversationId)
        ensures
            crate::identity::version_of(id.0) == 4,
            crate::identity::variant_of(id.0) == 2,
    {
        ConversationId(random_id())
    }

    pub fn from_uuid(uuid: u128) -> (id: ConversationId)
        ensures
            id.0 == uuid,
    {
        ConversationId(uuid)
    }

    pub fn as_uuid(&self) -> (uuid: u128)
        ensures
            uuid == self.0,
    {
        self.0
    }

    /// The hyphenated text of the identity.
    pub fn to_string(&self) -> (text: String)
        ensures
            text@ == crate::identity::hyphenated(self.0),
    {
        id_text(self.0)
    }
}

/// An entry of a conversation: a message of its own, or one that it shares
/// with the conversation it was split from.
#[derive(Debug, Clone, Copy, PartialEq, Eq, Structural)]
pub enum ConversationItem {
    Message(MessageId),
    ReferencedMessage(MessageId),
}

impl ConversationItem {
    /// The message the entry points at.
    pub open spec fn target(self) -> MessageId {
        match self {
            ConversationItem::Message(id) => id,
            ConversationItem::ReferencedMessage(id) => id,
        }
    }

    pub fn message_id(&self) -> (id: MessageId)
        ensures
            id == self.target(),
    {
        match self {
            ConversationItem::Message(id) => *id,
            ConversationItem::ReferencedMessage(id) => *id,
        }
    }
}

/// A conversation: its entries, its summary of prior context, and its place
/// in the tree of conversations.
#[derive(Debug)]
pub struct Conversation {
    pub id: ConversationId,
    pub parent: Option<ConversationId>,
    pub items: Vec<ConversationItem>,
    pub summary: Option<Summary>,
    pub created_at: Timestamp,
    pub updated_at: Timestamp,
    /// Set once this branch has delivered its payload to the parent.
    pub resolved_at: Option<Timestamp>,
}

#[verifier::ext_equal]
pub struct ConversationView {
    pub id: ConversationId,
    pub parent: Option<ConversationId>,
    pub items: Seq<ConversationItem>,
    pub summary: Option<SummaryView>,
    pub created_at: int,
    pub updated_at: int,
    pub resolved_at: Option<int>,
}

impl View for Conversation {
    type V = ConversationView;

    open spec fn view(&self) -> ConversationView {
        ConversationView {
            id: self.id,
            parent: self.parent,
            items: self.items@,
            summary: self.summary.deep_view(),
            created_at: self.created_at@,
            updated_at: self.updated_at@,
            resolved_at: self.resolved_at.deep_view(),
        }
    }
}

impl DeepView for Conversation {
    type V = ConversationView;

    open spec fn deep_view(&self) -> ConversationView {
        self@
    }
}

impl Clone for Conversation {
    fn clone(&self) -> (r: Self)
        ensures
            r@ == self@,
    {
        let items = self.items.clone();
        let summary = match &self.summary {
            Some(summary) => Some(summary.clone()),
            None => None,
        };
        Conversation {
            id: self.id,
            parent: self.parent,
            items,
            summary,
            created_at: self.created_at,
            updated_at: self.updated_at,
            resolved_at: self.resolved_at,
        }
    }
}

} // verus!
