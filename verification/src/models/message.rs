use vstd::prelude::*;
use vstd::string::*;

use crate::identity::{id_text, ordered_id};
use crate::json::Json;
use crate::time::Timestamp;

verus! {

/// The identity of a message: 128 bits, ordered by creation.
#[derive(Debug, Clone, Copy, PartialEq, Eq, Hash, Structural)]
pub struct MessageId(pub u128);

impl DeepView for MessageId {
    type V = u128;

    open spec fn deep_view(&self) -> u128 {
        self.0
    }
}

impl MessageId {
    /// A fresh, time-ordered identity.
    pub fn new() -> (id: MessageId)
        ensures
            crate::identity::version_of(id.0) == 7,
            crate::identity::variant_of(id.0) == 2,
    {
        MessageId(ordered_id())
    }

    pub fn from_uuid(uuid: u128) -> (id: MessageId)
        ensures
            id.0 == uuid,
    {
        MessageId(uuid)
    }

    pub fn as_uuid(&self) -> (uuid: u128)
        ensures
            uuid == self.0,
    {
        self.0
    }

    /// The hyphenated text of the identity.
    pub fn to_string(&self) -> (text: String)
        ensures
            text@ == crate::identity::hyphenated(self.0),
    {
        id_text(self.0)
    }
}

/// Who a message is from.
#[derive(Debug, Clone, Copy, PartialEq, Eq, Structural)]
pub enum Role {
    User,
    Assistant,
    System,
}

impl Role {
    /// The lower-case word for the role.
    pub open spec fn word(self) -> Seq<char> {
        match self {
            Role::User => "user"@,
            Role::Assistant => "assistant"@,
            Role::System => "system"@,
        }
    }

    pub fn name(self) -> (r: &'static str)
        ensures
            r@ == self.word(),
    {
        match self {
            Role::User => "user",
            Role::Assistant => "assistant",
            Role::System => "system",
        }
    }
}

/// One piece of a message.
#[derive(Debug)]
pub enum Content {
    Text { text: String },
    ToolCall { id: String, name: String, input: Json },
    ToolResult { id: String, output: String, is_error: bool },
    /// A hidden note that tells the model the time. Never shown to the user.
    TemporalUpdate { timestamp: String },
}

#[verifier::ext_equal]
pub enum ContentView {
    Text { text: Seq<char> },
    ToolCall { id: Seq<char>, name: Seq<char>, input: Seq<char> },
    ToolResult { id: Seq<char>, output: Seq<char>, is_error: bool },
    TemporalUpdate { timestamp: Seq<char> },
}

impl View for Content {
    type V = ContentView;

    open spec fn view(&self) -> ContentView {
        match *self {
            Content::Text { text } => ContentView::Text { text: text@ },
            Content::ToolCall { id, name, input } => ContentView::ToolCall {
                id: id@,
                name: name@,
                input: input@,
            },
            Content::ToolResult { id, output, is_error } => ContentView::ToolResult {
                id: id@,
                output: output@,
                is_error,
            },
            Content::TemporalUpdate { timestamp } => ContentView::TemporalUpdate {
                timestamp: timestamp@,
            },
        }
    }
}

impl DeepView for Content {
    type V = ContentView;

    open spec fn deep_view(&self) -> ContentView {
        self@
    }
}

impl Clone for Content {
    fn clone(&self) -> (r: Self)
        ensures
            r@ == self@,
    {
        match self {
            Content::Text { text } => Content::Text { text: text.clone() },
            Content::ToolCall { id, name, input } => Content::ToolCall {
                id: id.clone(),
                name: name.clone(),
                input: input.clone(),
            },
            Content::ToolResult { id, output, is_error } => Content::ToolResult {
                id: id.clone(),
                output: output.clone(),
                is_error: *is_error,
            },
            Content::TemporalUpdate { timestamp } => Content::TemporalUpdate {
                timestamp: timestamp.clone(),
            },
        }
    }
}

/// A message of a conversation.
#[derive(Debug)]
pub struct Message {
    pub id: MessageId,
    pub role: Role,
    pub content: Vec<Content>,
    pub timestamp: Timestamp,
}

#[verifier::ext_equal]
pub struct MessageView {
    pub id: MessageId,
    pub role: Role,
    pub content: Seq<ContentView>,
    pub timestamp: int,
}

impl View for Message {
    type V = MessageView;

    open spec fn view(&self) -> MessageView {
        MessageView {
            id: self.id,
            role: self.role,
            content: self.content.deep_view(),
            timestamp: self.timestamp@,
        }
    }
}

impl DeepView for Message {
    type V = MessageView;

    open spec fn deep_view(&self) -> MessageView {
        self@
    }
}

impl Clone for Message {
    fn clone(&self) -> (r: Self)
        ensures
            r@ == self@,
    {
        let content = clone_contents(&self.content);
        Message { id: self.id, role: self.role, content, timestamp: self.timestamp }
    }
}

/// A copy of a list of content.
pub fn clone_contents(v: &Vec<Content>) -> (r: Vec<Content>)
    ensures
        r.deep_view() == v.deep_view(),
{
    let r = v.clone();
    assert(r.deep_view() =~= v.deep_view());
    r
}

/// A copy of a list of messages.
pub fn clone_messages(v: &Vec<Message>) -> (r: Vec<Message>)
    ensures
        r.deep_view() == v.deep_view(),
{
    let r = v.clone();
    assert(r.deep_view() =~= v.deep_view());
    r
}

/// The text of one piece: what it says, or nothing for the other kinds.
pub open spec fn piece_text(c: ContentView) -> Seq<char> {
    match c {
        ContentView::Text { text } => text,
        _ => Seq::empty(),
    }
}

/// The text of a list of content: its texts, one after the other.
pub open spec fn text_of(contents: Seq<ContentView>) -> Seq<char>
    decreases contents.len(),
{
    if contents.len() == 0 {
        Seq::empty()
    } else {
        text_of(contents.drop_last()) + piece_text(contents.last())
    }
}

/// The text of a list of content.
pub fn extract_text(contents: &Vec<Content>) -> (r: String)
    ensures
        r@ == text_of(contents.deep_view()),
{
    let mut r = String::new();
    let mut i: usize = 0;
    while i < contents.len()
        invariant
            i <= contents@.len(),
            r@ == text_of(contents.deep_view().take(i as int)),
        decreases contents@.len() - i,
    {
        proof {
            let next = contents.deep_view().take(i + 1);
            assert(next.drop_last() =~= contents.deep_view().take(i as int));
            assert(next.last() == contents@[i as int]@);
        }
        match &contents[i] {
            Content::Text { text } => {
                r.append(text.as_str());
            },
            _ => {},
        }
        i += 1;
    }
    assert(contents.deep_view().take(i as int) =~= contents.deep_view());
    r
}

} // verus!
