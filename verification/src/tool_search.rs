//! The visible tool by which the model discovers hidden ones.

use vstd::prelude::*;
use vstd::string::*;

use crate::failure::Failure;
use crate::json::{compact_of, document, string_member, Json};
use crate::text::same;
use crate::tool::{
    Policy, Tool, ToolDefinition, ToolDefinitionView, ToolOutput, ToolOutputView, Visibility,
};
use crate::tool_index::{DiscoveredTool, DiscoveredToolView};

verus! {

/// How many hidden tools one search surfaces.
pub const TOOL_SEARCH_K: usize = 5;

/// What is answered when nothing matches.
pub const NO_MATCH: &'static str = "No matching tools found.";

/// A visible tool the model calls to discover hidden tools by a query in
/// natural language. It holds the hidden definitions as they were when it was
/// made; the registry stays the place where they are executed.
#[derive(Debug)]
pub struct ToolSearch {
    pub definitions: Vec<ToolDefinition>,
}

/// The first definition under a name.
pub open spec fn definition_named(definitions: Seq<ToolDefinitionView>, name: Seq<char>) -> Option<
    ToolDefinitionView,
>
    decreases definitions.len(),
{
    if definitions.len() == 0 {
        None
    } else if definitions[0].name == name {
        Some(definitions[0])
    } else {
        definition_named(definitions.drop_first(), name)
    }
}

/// The line that shows a discovered tool.
pub open spec fn tool_line(d: ToolDefinitionView, shown: Seq<char>) -> Seq<char> {
    "- "@ + d.name + " (score: "@ + shown + "): "@ + d.description + "\n  schema: "@
        + compact_of(d.input_schema) + "\n"@
}

/// The lines of the discovered tools that are defined, in order.
pub open spec fn tool_lines(
    definitions: Seq<ToolDefinitionView>,
    discovered: Seq<DiscoveredToolView>,
) -> Seq<char>
    decreases discovered.len(),
{
    if discovered.len() == 0 {
        Seq::empty()
    } else {
        let before = tool_lines(definitions, discovered.drop_last());
        match definition_named(definitions, discovered.last().name) {
            Some(d) => before + tool_line(d, discovered.last().shown),
            None => before,
        }
    }
}

/// Whether one of the discovered tools is defined.
pub open spec fn any_defined(
    definitions: Seq<ToolDefinitionView>,
    discovered: Seq<DiscoveredToolView>,
) -> bool {
    exists|i: int|
        0 <= i < discovered.len() && definition_named(
            definitions,
            (#[trigger] discovered[i]).name,
        ) is Some
}

/// The answer to a search.
pub open spec fn discovered_text(
    definitions: Seq<ToolDefinitionView>,
    discovered: Seq<DiscoveredToolView>,
) -> Seq<char> {
    if any_defined(definitions, discovered) {
        "Discovered tools:\n\n"@ + tool_lines(definitions, discovered)
            + "\nCall any of these tools by name to use it."@
    } else {
        NO_MATCH@
    }
}

/// The query of a call, given the `query` string of its input.
pub fn query_of(found: Option<String>) -> (r: Result<String, Failure>)
    ensures
        match found {
            Some(query) => r matches Ok(q) && q@ == query@,
            None => r matches Err(failure) && failure@ == "input must contain a `query` string"@,
        },
{
    match found {
        Some(query) => Ok(query),
        None => Err(Failure::new("input must contain a `query` string")),
    }
}

impl ToolSearch {
    /// A search over the given hidden definitions.
    pub fn new(definitions: Vec<ToolDefinition>) -> (r: Self)
        ensures
            r.definitions == definitions,
    {
        ToolSearch { definitions }
    }

    /// The query of a call.
    pub fn query(&self, input: &Json) -> (r: Result<String, Failure>)
        ensures
            match r {
                Ok(query) => string_member(input@, "query"@) == Some(query@),
                Err(failure) => string_member(input@, "query"@) is None && failure@
                    == "input must contain a `query` string"@,
            },
    {
        query_of(input.get_str("query"))
    }

    fn find(&self, name: &str) -> (r: Option<usize>)
        ensures
            match r {
                Some(i) => i < self.definitions@.len() && definition_named(
                    self.definitions.deep_view(),
                    name@,
                ) == Some(self.definitions@[i as int]@),
                None => definition_named(self.definitions.deep_view(), name@) is None,
            },
    {
        let ghost all = self.definitions.deep_view();
        let mut i: usize = 0;
        assert(all.skip(0) =~= all);
        while i < self.definitions.len()
            invariant
                i <= self.definitions@.len(),
                all == self.definitions.deep_view(),
                definition_named(all, name@) == definition_named(all.skip(i as int), name@),
            decreases self.definitions@.len() - i,
        {
            proof {
                let here = all.skip(i as int);
                assert(here[0] == self.definitions@[i as int]@);
                assert(here.drop_first() =~= all.skip(i + 1));
            }
            if same(self.definitions[i].name.as_str(), name) {
                return Some(i);
            }
            i += 1;
        }
        None
    }

    /// The answer to a search that found these tools: their names, scores,
    /// descriptions and schemas.
    pub fn render(&self, discovered: &Vec<DiscoveredTool>) -> (r: ToolOutput)
        ensures
            r@ == (ToolOutputView {
                text: discovered_text(self.definitions.deep_view(), discovered.deep_view()),
                is_error: false,
            }),
    {
        let ghost defs = self.definitions.deep_view();
        let ghost all = discovered.deep_view();
        let mut any: bool = false;
        let mut lines = String::new();
        let mut i: usize = 0;
        assert(all.take(0).len() == 0);
        while i < discovered.len()
            invariant
                i <= discovered@.len(),
                defs == self.definitions.deep_view(),
                all == discovered.deep_view(),
                lines@ == tool_lines(defs, all.take(i as int)),
                any == exists|k: int|
                    0 <= k < i && definition_named(defs, (#[trigger] all[k]).name) is Some,
            decreases discovered@.len() - i,
        {
            let ghost was = any;
            proof {
                let next = all.take(i + 1);
                assert(next.drop_last() =~= all.take(i as int));
                assert(next.last() == discovered@[i as int]@);
                assert(all[i as int] == discovered@[i as int]@);
            }
            match self.find(discovered[i].name.as_str()) {
                Some(d) => {
                    any = true;
                    let definition = &self.definitions[d];
                    let schema = definition.input_schema.compact();
                    let ghost before = lines@;
                    lines.append("- ");
                    lines.append(definition.name.as_str());
                    lines.append(" (score: ");
                    lines.append(discovered[i].shown.as_str());
                    lines.append("): ");
                    lines.append(definition.description.as_str());
                    lines.append("\n  schema: ");
                    lines.append(schema.as_str());
                    lines.append("\n");
                    assert(lines@ =~= before + tool_line(definition@, discovered@[i as int].shown@));
                },
                None => {
                    assert(any == exists|k: int|
                        0 <= k < i + 1 && definition_named(defs, (#[trigger] all[k]).name) is Some);
                },
            }
            i += 1;
        }
        assert(all.take(i as int) =~= all);
        if any {
            let mut text = "Discovered tools:\n\n".to_owned();
            text.append(lines.as_str());
            text.append("\nCall any of these tools by name to use it.");
            ToolOutput { text, is_error: false }
        } else {
            ToolOutput { text: NO_MATCH.to_owned(), is_error: false }
        }
    }
}

impl Tool for ToolSearch {
    open spec fn described(&self) -> ToolDefinitionView {
        ToolDefinitionView {
            name: "tool_search"@,
            description: "Search the deferred tool catalog for capabilities not in the visible tool list. Call this before assuming a capability is unavailable. Returns the names, descriptions, and input schemas of matching tools so you can call them directly by name."@,
            input_schema: document(
                "{\"properties\":{\"query\":{\"description\":\"A natural-language description of the capability you need.\",\"type\":\"string\"}},\"required\":[\"query\"],\"type\":\"object\"}"@,
            ),
        }
    }

    fn name(&self) -> (r: &str) {
        "tool_search"
    }

    fn description(&self) -> (r: &str) {
        "Search the deferred tool catalog for capabilities not in the visible tool list. Call this before assuming a capability is unavailable. Returns the names, descriptions, and input schemas of matching tools so you can call them directly by name."
    }

    fn input_schema(&self) -> (r: Json) {
        Json::parse_or_null(
            "{\"properties\":{\"query\":{\"description\":\"A natural-language description of the capability you need.\",\"type\":\"string\"}},\"required\":[\"query\"],\"type\":\"object\"}",
        )
    }

    fn policy(&self) -> (r: Policy)
        ensures
            r == Policy::Auto,
    {
        Policy::Auto
    }

    fn visibility(&self) -> (r: Visibility)
        ensures
            r == Visibility::Visible,
    {
        Visibility::Visible
    }
}

} // verus!
