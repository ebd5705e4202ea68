//! A scripted language model.

use vstd::prelude::*;
use vstd::string::*;

use crate::language_model::{AssistantEvent, AssistantEventView, Prompt};
use crate::tool::{clone_definitions, ToolDefinition};

verus! {

/// A language model that replays a script: each completion emits the events
/// of the next turn. Once the script is used up, every completion emits the
/// single text `response`.
#[derive(Debug)]
pub struct MockLanguageModel {
    pub remaining_capacity: usize,
    pub turns: Vec<Vec<AssistantEvent>>,
    pub prompts: Vec<Prompt>,
    pub tools: Vec<Vec<ToolDefinition>>,
}

/// The events of a completion with nothing left in the script.
pub open spec fn default_events() -> Seq<AssistantEventView> {
    seq![AssistantEventView::Text("response"@)]
}

fn response() -> (r: Vec<AssistantEvent>)
    ensures
        r.deep_view() == default_events(),
{
    let mut r: Vec<AssistantEvent> = Vec::new();
    r.push(AssistantEvent::Text("response".to_owned()));
    assert(r.deep_view() =~= default_events());
    r
}

impl MockLanguageModel {
    /// What is left of the script.
    pub open spec fn script(&self) -> Seq<Seq<AssistantEventView>> {
        self.turns.deep_view()
    }

    pub open spec fn unused(&self) -> bool {
        self.prompts@.len() == 0 && self.tools@.len() == 0
    }

    /// Emits a single `response` text on every completion.
    pub fn new(remaining_capacity: usize) -> (r: Self)
        ensures
            r.remaining_capacity == remaining_capacity,
            r.script() == seq![default_events()],
            r.unused(),
    {
        Self::with_events(remaining_capacity, response())
    }

    /// Emits the given texts on the first completion.
    pub fn with_chunks(remaining_capacity: usize, chunks: Vec<String>) -> (r: Self)
        ensures
            r.remaining_capacity == remaining_capacity,
            r.script() == seq![
                chunks.deep_view().map_values(|c: Seq<char>| AssistantEventView::Text(c)),
            ],
            r.unused(),
    {
        let mut events: Vec<AssistantEvent> = Vec::new();
        let mut i: usize = 0;
        while i < chunks.len()
            invariant
                i <= chunks@.len(),
                events@.len() == i,
                forall|k: int|
                    0 <= k < i ==> (#[trigger] events@[k])@ == AssistantEventView::Text(
                        chunks@[k]@,
                    ),
            decreases chunks@.len() - i,
        {
            events.push(AssistantEvent::Text(chunks[i].clone()));
            i += 1;
        }
        assert(events.deep_view() =~= chunks.deep_view().map_values(
            |c: Seq<char>| AssistantEventView::Text(c),
        ));
        Self::with_events(remaining_capacity, events)
    }

    /// Emits the given events on the first completion.
    pub fn with_events(remaining_capacity: usize, events: Vec<AssistantEvent>) -> (r: Self)
        ensures
            r.remaining_capacity == remaining_capacity,
            r.script() == seq![events.deep_view()],
            r.unused(),
    {
        let ghost first = events.deep_view();
        let mut turns: Vec<Vec<AssistantEvent>> = Vec::new();
        turns.push(events);
        assert(turns.deep_view() =~= seq![first]);
        Self::with_turns(remaining_capacity, turns)
    }

    /// Emits the events of each turn on successive completions.
    pub fn with_turns(remaining_capacity: usize, turns: Vec<Vec<AssistantEvent>>) -> (r: Self)
        ensures
            r.remaining_capacity == remaining_capacity,
            r.script() == turns.deep_view(),
            r.unused(),
    {
        MockLanguageModel { remaining_capacity, turns, prompts: Vec::new(), tools: Vec::new() }
    }

    /// The prompts of the completions, in order.
    pub fn prompts(&self) -> (r: Vec<Prompt>)
        ensures
            r.deep_view() == self.prompts.deep_view(),
    {
        let r = self.prompts.clone();
        assert(r.deep_view() =~= self.prompts.deep_view());
        r
    }

    /// The tools of the completions, in order.
    pub fn tool_calls(&self) -> (r: Vec<Vec<ToolDefinition>>)
        ensures
            r.deep_view() == self.tools.deep_view(),
    {
        let mut r: Vec<Vec<ToolDefinition>> = Vec::new();
        let mut i: usize = 0;
        while i < self.tools.len()
            invariant
                i <= self.tools@.len(),
                r@.len() == i,
                forall|k: int|
                    0 <= k < i ==> (#[trigger] r@[k]).deep_view() == self.tools@[k].deep_view(),
            decreases self.tools@.len() - i,
        {
            r.push(clone_definitions(&self.tools[i]));
            i += 1;
        }
        assert(r.deep_view() =~= self.tools.deep_view());
        r
    }

    /// The events of the next turn of the script.
    pub fn complete(&mut self, prompt: Prompt, tools: &Vec<ToolDefinition>) -> (r: Vec<
        AssistantEvent,
    >)
        ensures
            old(self).script().len() > 0 ==> r.deep_view() == old(self).script()[0] && final(self).script() == old(self).script().drop_first(),
            old(self).script().len() == 0 ==> r.deep_view() == default_events() && final(self).script() == old(self).script(),
            final(self).prompts.deep_view() == old(self).prompts.deep_view().push(prompt@),
            final(self).tools.deep_view() == old(self).tools.deep_view().push(tools.deep_view()),
            final(self).remaining_capacity == old(self).remaining_capacity,
    {
        let ghost asked = prompt@;
        self.prompts.push(prompt);
        assert(self.prompts.deep_view() =~= old(self).prompts.deep_view().push(asked));
        self.tools.push(clone_definitions(tools));
        assert(self.tools.deep_view() =~= old(self).tools.deep_view().push(tools.deep_view()));
        if self.turns.len() > 0 {
            let r = self.turns.remove(0);
            assert(self.turns.deep_view() =~= old(self).script().drop_first());
            r
        } else {
            response()
        }
    }

    pub fn remaining_capacity(&self, prompt: &Prompt) -> (r: usize)
        ensures
            r == self.remaining_capacity,
    {
        self.remaining_capacity
    }
}

} // verus!
