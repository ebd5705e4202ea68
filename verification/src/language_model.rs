//! What the orchestrator hands to a language model and what comes back.

use vstd::prelude::*;

use crate::json::Json;
use crate::models::message::{clone_contents, Content, ContentView, Role};

verus! {

/// A tool call emitted by the language model. `id` matches results back to
/// calls, `name` finds the tool in the registry, and `input` is its argument.
#[derive(Debug)]
pub struct ToolCall {
    pub id: String,
    pub name: String,
    pub input: Json,
}

#[verifier::ext_equal]
pub struct ToolCallView {
    pub id: Seq<char>,
    pub name: Seq<char>,
    pub input: Seq<char>,
}

impl View for ToolCall {
    type V = ToolCallView;

    open spec fn view(&self) -> ToolCallView {
        ToolCallView { id: self.id@, name: self.name@, input: self.input@ }
    }
}

impl DeepView for ToolCall {
    type V = ToolCallView;

    open spec fn deep_view(&self) -> ToolCallView {
        self@
    }
}

impl Clone for ToolCall {
    fn clone(&self) -> (r: Self)
        ensures
            r@ == self@,
    {
        ToolCall { id: self.id.clone(), name: self.name.clone(), input: self.input.clone() }
    }
}

/// An event emitted by the language model during a completion.
#[derive(Debug)]
pub enum AssistantEvent {
    Text(String),
    ToolCall(ToolCall),
}

#[verifier::ext_equal]
pub enum AssistantEventView {
    Text(Seq<char>),
    ToolCall(ToolCallView),
}

impl View for AssistantEvent {
    type V = AssistantEventView;

    open spec fn view(&self) -> AssistantEventView {
        match *self {
            AssistantEvent::Text(text) => AssistantEventView::Text(text@),
            AssistantEvent::ToolCall(call) => AssistantEventView::ToolCall(call@),
        }
    }
}

impl DeepView for AssistantEvent {
    type V = AssistantEventView;

    open spec fn deep_view(&self) -> AssistantEventView {
        self@
    }
}

impl Clone for AssistantEvent {
    fn clone(&self) -> (r: Self)
        ensures
            r@ == self@,
    {
        match self {
            AssistantEvent::Text(text) => AssistantEvent::Text(text.clone()),
            AssistantEvent::ToolCall(call) => AssistantEvent::ToolCall(call.clone()),
        }
    }
}

/// A message as the language model sees it.
#[derive(Debug)]
pub struct PromptMessage {
    pub role: Role,
    pub content: Vec<Content>,
}

#[verifier::ext_equal]
pub struct PromptMessageView {
    pub role: Role,
    pub content: Seq<ContentView>,
}

impl View for PromptMessage {
    type V = PromptMessageView;

    open spec fn view(&self) -> PromptMessageView {
        PromptMessageView { role: self.role, content: self.content.deep_view() }
    }
}

impl DeepView for PromptMessage {
    type V = PromptMessageView;

    open spec fn deep_view(&self) -> PromptMessageView {
        self@
    }
}

impl Clone for PromptMessage {
    fn clone(&self) -> (r: Self)
        ensures
            r@ == self@,
    {
        PromptMessage { role: self.role, content: clone_contents(&self.content) }
    }
}

/// The data a completion is made from. Rendering it into a system prompt is
/// the model adapter's part.
#[derive(Debug)]
pub struct Prompt {
    /// Summary of prior context, if any.
    pub summary: Option<String>,
    /// Summaries of related prior conversations. They appear in the system
    /// prompt only, never as messages.
    pub recalled: Vec<String>,
    pub messages: Vec<PromptMessage>,
}

#[verifier::ext_equal]
pub struct PromptView {
    pub summary: Option<Seq<char>>,
    pub recalled: Seq<Seq<char>>,
    pub messages: Seq<PromptMessageView>,
}

impl View for Prompt {
    type V = PromptView;

    open spec fn view(&self) -> PromptView {
        PromptView {
            summary: self.summary.deep_view(),
            recalled: self.recalled.deep_view(),
            messages: self.messages.deep_view(),
        }
    }
}

impl DeepView for Prompt {
    type V = PromptView;

    open spec fn deep_view(&self) -> PromptView {
        self@
    }
}

impl Clone for Prompt {
    fn clone(&self) -> (r: Self)
        ensures
            r@ == self@,
    {
        let summary = match &self.summary {
            Some(text) => Some(text.clone()),
            None => None,
        };
        let recalled = self.recalled.clone();
        let messages = self.messages.clone();
        assert(recalled.deep_view() =~= self.recalled.deep_view());
        assert(messages.deep_view() =~= self.messages.deep_view());
        Prompt { summary, recalled, messages }
    }
}

} // verus!
