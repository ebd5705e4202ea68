//! What the tools and the indexes do, in terms of what they hold and what
//! they are asked.

use vstd::prelude::*;

use crate::exa::web_search::{
    reply_outcome, result_blocks, results_text, snippet_of, ExaWebSearch, SearchResultView,
};
use crate::json::compact_of;
use crate::memory_index::{edge_position, targets, with_edge, RelatedConversation, Score};
use crate::models::conversation::ConversationId;
use crate::orchestrator::decisions::resolve_definition;
use crate::text::{is_white, numeral, skip_back, trimmed, trimmed_end};
use crate::tool::{
    first_named, shown_by_default, StaticToolRegistry, Tool, ToolDefinitionView, ToolEntry,
    ToolRegistry, Visibility,
};
use crate::tool_index::{
    embedding_text, hidden_of, lemma_filter_contains, ranking, ranks_before, top_of,
    DiscoveredToolView,
};
use crate::tool_search::{
    any_defined, definition_named, discovered_text, tool_lines, ToolSearch, TOOL_SEARCH_K,
};

verus! {

// ---------------------------------------------------------------------------
// The registry
// ---------------------------------------------------------------------------

proof fn lemma_first_named(entries: Seq<ToolEntry>, name: Seq<char>)
    ensures
        0 <= first_named(entries, name) <= entries.len(),
        forall|i: int|
            0 <= i < first_named(entries, name) ==> (#[trigger] entries[i]).definition.name@ != name,
        first_named(entries, name) < entries.len() ==> entries[first_named(
            entries,
            name,
        )].definition.name@ == name,
    decreases entries.len(),
{
    if entries.len() > 0 && entries[0].definition.name@ != name {
        let rest = entries.drop_first();
        lemma_first_named(rest, name);
        let k = first_named(entries, name);
        assert forall|i: int| 0 <= i < k implies (#[trigger] entries[i]).definition.name@
            != name by {
            if i > 0 {
                assert(rest[i - 1] == entries[i]);
            }
        }
        if k < entries.len() {
            assert(rest[k - 1] == entries[k]);
        }
    }
}

/// A registry answers for a name with what the first tool of that name stated,
/// and with nothing exactly if no tool has it.
pub proof fn law_first_tool_of_a_name_answers(registry: StaticToolRegistry, name: Seq<char>, k: int)
    ensures
        ({
            let entries = registry.entries();
            &&& (0 <= k < entries.len() && entries[k].definition.name@ == name && forall|i: int|
                0 <= i < k ==> (#[trigger] entries[i]).definition.name@ != name) ==> {
                &&& registry.policy_of(name) == Some(entries[k].policy)
                &&& registry.visibility_of(name) == Some(entries[k].visibility)
                &&& first_named(entries, name) == k
            }
            &&& (forall|i: int|
                0 <= i < entries.len() ==> (#[trigger] entries[i]).definition.name@ != name) ==> {
                &&& registry.policy_of(name) is None
                &&& registry.visibility_of(name) is None
                &&& first_named(entries, name) == entries.len()
            }
        }),
{
    let entries = registry.entries();
    lemma_first_named(entries, name);
    let f = first_named(entries, name);
    if 0 <= k < entries.len() && entries[k].definition.name@ == name && (forall|i: int|
        0 <= i < k ==> (#[trigger] entries[i]).definition.name@ != name) {
        if f < k {
            assert(entries[f].definition.name@ == name);
        }
        if k < f {
            assert(entries[k].definition.name@ != name);
        }
    }
}

/// A registry defines every tool it was given, in order and as the tool
/// described itself.
pub proof fn law_every_tool_is_defined(registry: StaticToolRegistry)
    ensures
        registry.defined().len() == registry.entries().len(),
        forall|i: int|
            #![trigger registry.defined()[i]]
            0 <= i < registry.entries().len() ==> {
                &&& registry.defined()[i].name == registry.entries()[i].definition.name@
                &&& registry.defined()[i].description
                    == registry.entries()[i].definition.description@
                &&& registry.defined()[i].input_schema
                    == registry.entries()[i].definition.input_schema@
            },
{
}

/// A tool is shown by default exactly if it is defined and visible, and
/// indexed exactly if it is defined and hidden: every tool is one or the
/// other.
pub proof fn law_tool_is_shown_or_indexed(registry: StaticToolRegistry, d: ToolDefinitionView)
    ensures
        shown_by_default(registry).contains(d) <==> registry.defined().contains(d)
            && registry.visibility_of(d.name) == Some(Visibility::Visible),
        hidden_of(registry).contains(d) <==> registry.defined().contains(d)
            && registry.visibility_of(d.name) == Some(Visibility::Hidden),
        registry.defined().contains(d) ==> (shown_by_default(registry).contains(d) <==> !hidden_of(
            registry,
        ).contains(d)),
{
    let all = registry.defined();
    let visible = |d: ToolDefinitionView|
        registry.visibility_of(d.name) == Some(Visibility::Visible);
    let hidden = |d: ToolDefinitionView|
        registry.visibility_of(d.name) == Some(Visibility::Hidden);
    lemma_filter_contains(all, visible, d);
    lemma_filter_contains(all, hidden, d);
    assert(shown_by_default(registry) == all.filter(visible));
    assert(hidden_of(registry) == all.filter(hidden));
    if all.contains(d) {
        let i = choose|i: int| 0 <= i < all.len() && all[i] == d;
        lemma_first_named(registry.entries(), d.name);
        assert(registry.entries()[i].definition.name@ == d.name);
        assert(first_named(registry.entries(), d.name) < registry.entries().len());
    }
}

// ---------------------------------------------------------------------------
// The index of hidden tools
// ---------------------------------------------------------------------------

/// Two tools stand for the same text in the index only if they have the same
/// name and the same description.
pub proof fn law_indexed_text_tells_tools_apart(
    name: Seq<char>,
    description: Seq<char>,
    other_name: Seq<char>,
    other_description: Seq<char>,
)
    requires
        !name.contains('\n'),
        !other_name.contains('\n'),
        embedding_text(name, description) == embedding_text(other_name, other_description),
    ensures
        name == other_name,
        description == other_description,
{
    reveal_strlit("\n");
    let a = embedding_text(name, description);
    let b = embedding_text(other_name, other_description);
    let n = name.len() as int;
    let m = other_name.len() as int;
    assert(a[n] == '\n' && b[m] == '\n');
    if n < m {
        assert(b[n] == other_name[n]);
    } else if m < n {
        assert(a[m] == name[m]);
    }
    assert(a.take(n) =~= name && b.take(m) =~= other_name);
    assert(a.skip(n + 1) =~= description && b.skip(m + 1) =~= other_description);
}

/// Of equally similar tools, the one that came first is found first.
pub proof fn law_equally_similar_tools_keep_their_order(
    items: Seq<DiscoveredToolView>,
    k: nat,
    best: Seq<DiscoveredToolView>,
    a: int,
    b: int,
)
    requires
        top_of(items, k, best),
        0 <= a < b < best.len(),
        best[a].score == best[b].score,
    ensures
        exists|x: int, y: int|
            0 <= x < y < items.len() && #[trigger] items[x] == best[a] && #[trigger] items[y]
                == best[b],
{
    let order = choose|order: Seq<int>| #[trigger]
        ranking(items, order) && best.len() == if k < items.len() {
            k
        } else {
            items.len()
        } && forall|a: int| 0 <= a < best.len() ==> best[a] == items[#[trigger] order[a]];
    assert(ranks_before(items, order[a], order[b]));
    assert(items[order[a]] == best[a] && items[order[b]] == best[b]);
}

// ---------------------------------------------------------------------------
// Tool search
// ---------------------------------------------------------------------------

/// A definition is found by its name, the first of several, and nothing is
/// found exactly if no definition has it.
pub proof fn law_definition_is_found_by_name(
    definitions: Seq<ToolDefinitionView>,
    name: Seq<char>,
)
    ensures
        match definition_named(definitions, name) {
            Some(d) => exists|i: int|
                {
                    &&& 0 <= i < definitions.len()
                    &&& #[trigger] definitions[i] == d
                    &&& d.name == name
                    &&& forall|j: int| 0 <= j < i ==> (#[trigger] definitions[j]).name != name
                },
            None => forall|i: int|
                0 <= i < definitions.len() ==> (#[trigger] definitions[i]).name != name,
        },
    decreases definitions.len(),
{
    if definitions.len() > 0 {
        if definitions[0].name == name {
            assert(definitions[0] == definition_named(definitions, name)->0);
        } else {
            let rest = definitions.drop_first();
            law_definition_is_found_by_name(rest, name);
            match definition_named(definitions, name) {
                Some(d) => {
                    let i = choose|i: int|
                        {
                            &&& 0 <= i < rest.len()
                            &&& #[trigger] rest[i] == d
                            &&& d.name == name
                            &&& forall|j: int| 0 <= j < i ==> (#[trigger] rest[j]).name != name
                        };
                    assert(definitions[i + 1] == d);
                    assert forall|j: int| 0 <= j < i + 1 implies (
                    #[trigger] definitions[j]).name != name by {
                        if j > 0 {
                            assert(rest[j - 1] == definitions[j]);
                        }
                    }
                },
                None => {
                    assert forall|i: int| 0 <= i < definitions.len() implies (
                    #[trigger] definitions[i]).name != name by {
                        if i > 0 {
                            assert(rest[i - 1] == definitions[i]);
                        }
                    }
                },
            }
        }
    }
}

/// How a discovered tool is shown: with its name, its score, its description
/// and its schema.
pub open spec fn shown_tool(d: ToolDefinitionView, score: Seq<char>) -> Seq<char> {
    "- "@ + d.name + " (score: "@ + score + "): "@ + d.description + "\n  schema: "@ + compact_of(
        d.input_schema,
    ) + "\n"@
}

/// The tools that were discovered are shown in order, those that are not
/// defined passed over: one more is shown behind all the others.
pub proof fn law_discovered_tools_are_shown_in_order(
    definitions: Seq<ToolDefinitionView>,
    discovered: Seq<DiscoveredToolView>,
    last: DiscoveredToolView,
)
    ensures
        tool_lines(definitions, Seq::empty()).len() == 0,
        tool_lines(definitions, discovered.push(last)) == tool_lines(definitions, discovered)
            + match definition_named(definitions, last.name) {
            Some(d) => shown_tool(d, last.shown),
            None => Seq::<char>::empty(),
        },
{
    assert(discovered.push(last).drop_last() =~= discovered);
    assert(tool_lines(definitions, discovered.push(last)) =~= tool_lines(definitions, discovered)
        + match definition_named(definitions, last.name) {
        Some(d) => shown_tool(d, last.shown),
        None => Seq::<char>::empty(),
    });
}

/// A search that discovers a tool that is defined answers with all that it
/// discovered; one that does not says that there is nothing.
pub proof fn law_search_answers_with_what_it_found(
    definitions: Seq<ToolDefinitionView>,
    discovered: Seq<DiscoveredToolView>,
)
    ensures
        ({
            let some = exists|i: int, j: int|
                0 <= i < discovered.len() && 0 <= j < definitions.len() && (
                #[trigger] discovered[i]).name == (#[trigger] definitions[j]).name;
            &&& some ==> discovered_text(definitions, discovered) == "Discovered tools:\n\n"@
                + tool_lines(definitions, discovered)
                + "\nCall any of these tools by name to use it."@
            &&& !some ==> discovered_text(definitions, discovered) == "No matching tools found."@
        }),
{
    let some = exists|i: int, j: int|
        0 <= i < discovered.len() && 0 <= j < definitions.len() && (#[trigger] discovered[i]).name
            == (#[trigger] definitions[j]).name;
    if some {
        let (i, j) = choose|i: int, j: int|
            0 <= i < discovered.len() && 0 <= j < definitions.len() && (
            #[trigger] discovered[i]).name == (#[trigger] definitions[j]).name;
        law_definition_is_found_by_name(definitions, discovered[i].name);
        assert(definition_named(definitions, discovered[i].name) is Some);
        assert(any_defined(definitions, discovered));
    } else {
        if any_defined(definitions, discovered) {
            let i = choose|i: int|
                0 <= i < discovered.len() && definition_named(
                    definitions,
                    (#[trigger] discovered[i]).name,
                ) is Some;
            law_definition_is_found_by_name(definitions, discovered[i].name);
            let d = definition_named(definitions, discovered[i].name)->0;
            let j = choose|j: int|
                {
                    &&& 0 <= j < definitions.len()
                    &&& #[trigger] definitions[j] == d
                    &&& d.name == discovered[i].name
                    &&& forall|x: int|
                        0 <= x < j ==> (#[trigger] definitions[x]).name != discovered[i].name
                };
            assert(discovered[i].name == definitions[j].name);
        }
    }
}

/// The tools that come with the agent are called by their own names, and the
/// one that closes a thread by another.
pub proof fn law_tools_are_told_apart_by_name(search: ToolSearch, web: ExaWebSearch)
    ensures
        search.described().name == "tool_search"@,
        web.described().name == "web_search"@,
        search.described().name != web.described().name,
        resolve_definition().name == "__resolve"@,
        resolve_definition().name != search.described().name,
        resolve_definition().name != web.described().name,
{
    reveal_strlit("tool_search");
    reveal_strlit("web_search");
    reveal_strlit("__resolve");
    assert("tool_search"@.len() == 11 && "web_search"@.len() == 10 && "__resolve"@.len() == 9);
}

/// One search surfaces five tools at most.
pub proof fn law_search_surfaces_five()
    ensures
        TOOL_SEARCH_K == 5,
{
}

// ---------------------------------------------------------------------------
// Web search
// ---------------------------------------------------------------------------

/// What is shown of a hit is its first highlight where it has one, and its
/// summary where it has none.
pub proof fn law_first_highlight_is_shown(hit: SearchResultView)
    ensures
        hit.highlights is Some && hit.highlights->0.len() > 0 ==> snippet_of(hit)
            == hit.highlights->0[0],
        !(hit.highlights is Some && hit.highlights->0.len() > 0) && hit.summary is Some
            ==> snippet_of(hit) == hit.summary->0,
        !(hit.highlights is Some && hit.highlights->0.len() > 0) && hit.summary is None
            ==> snippet_of(hit).len() == 0,
{
}

/// Hits are numbered from one and shown in order, each with its title, its
/// address and what is shown of it.
pub proof fn law_hits_are_numbered_in_order(hits: Seq<SearchResultView>, last: SearchResultView)
    ensures
        result_blocks(Seq::empty()).len() == 0,
        result_blocks(hits.push(last)) == result_blocks(hits) + (numeral(hits.len() + 1) + ". "@
            + last.title + "\n   "@ + last.url + "\n   "@ + trimmed(snippet_of(last)) + "\n\n"@),
{
    assert(hits.push(last).drop_last() =~= hits);
}

proof fn lemma_trimmed_end(s: Seq<char>)
    ensures
        exists|k: int|
            0 <= k <= s.len() && trimmed_end(s) == #[trigger] s.take(k) && forall|i: int|
                k <= i < s.len() ==> is_white(#[trigger] s[i]),
    decreases s.len(),
{
    let white = |c: char| is_white(c);
    if s.len() > 0 && white(s.last()) {
        let rest = s.drop_last();
        lemma_trimmed_end(rest);
        let k = choose|k: int|
            0 <= k <= rest.len() && trimmed_end(rest) == #[trigger] rest.take(k) && forall|i: int|
                k <= i < rest.len() ==> is_white(#[trigger] rest[i]);
        assert(s.take(k) =~= rest.take(k));
        assert forall|i: int| k <= i < s.len() implies is_white(#[trigger] s[i]) by {
            if i < rest.len() {
                assert(rest[i] == s[i]);
            }
        }
        assert(skip_back(s, white) == skip_back(rest, white));
    } else {
        assert(s.take(s.len() as int) =~= s);
    }
}

/// The answer of a search shows every hit; only white space at its very end is
/// left out. Where there is no hit, it says so.
pub proof fn law_every_hit_is_shown(hits: Seq<SearchResultView>)
    ensures
        hits.len() == 0 ==> results_text(hits) == "No results."@,
        hits.len() > 0 ==> exists|k: int|
            #![trigger result_blocks(hits).take(k)]
            {
                &&& 0 <= k <= result_blocks(hits).len()
                &&& results_text(hits) == result_blocks(hits).take(k)
                &&& forall|i: int|
                    k <= i < result_blocks(hits).len() ==> is_white(
                        #[trigger] result_blocks(hits)[i],
                    )
            },
{
    lemma_trimmed_end(result_blocks(hits));
}

/// A reply that the service refuses tells the model the status and the body,
/// as an error; hits that could be read are shown, as no error; and a reply
/// that could not be read is a failure.
pub proof fn law_reply_is_passed_on(
    success: bool,
    status: Seq<char>,
    body: Seq<char>,
    parsed: Option<Seq<SearchResultView>>,
)
    ensures
        ({
            let outcome = reply_outcome(success, status, body, parsed);
            &&& !success ==> (outcome matches Ok(output) && output.is_error && output.text
                == "Exa search failed (HTTP "@ + status + "): "@ + body)
            &&& success && parsed is Some ==> (outcome matches Ok(output) && !output.is_error
                && output.text == results_text(parsed->0))
            &&& success && parsed is None ==> (outcome matches Err(error) && error
                == "failed to parse exa response: "@ + body)
        }),
{
}

// ---------------------------------------------------------------------------
// Recall edges
// ---------------------------------------------------------------------------

/// A recorded edge is there with its score; it is one more edge, and the last,
/// exactly if none led there before.
pub proof fn law_recorded_edge_is_there(
    edges: Seq<RelatedConversation>,
    to: ConversationId,
    score: Score,
)
    ensures
        with_edge(edges, to, score).contains(RelatedConversation { id: to, score }),
        targets(edges).contains(to) ==> with_edge(edges, to, score).len() == edges.len()
            && targets(with_edge(edges, to, score)) == targets(edges),
        !targets(edges).contains(to) ==> with_edge(edges, to, score) == edges.push(
            RelatedConversation { id: to, score },
        ),
{
    lemma_edge(edges, to);
    let k = edge_position(edges, to) as int;
    let after = with_edge(edges, to, score);
    if k < edges.len() {
        assert(after[k] == RelatedConversation { id: to, score });
        assert(targets(edges)[k] == to);
        assert(targets(after) =~= targets(edges));
    } else {
        assert(after.last() == RelatedConversation { id: to, score });
        if targets(edges).contains(to) {
            let i = choose|i: int| 0 <= i < targets(edges).len() && targets(edges)[i] == to;
            assert(edges[i].id == to);
        }
    }
}

proof fn lemma_edge(edges: Seq<RelatedConversation>, to: ConversationId)
    ensures
        edge_position(edges, to) <= edges.len(),
        forall|i: int| 0 <= i < edge_position(edges, to) ==> (#[trigger] edges[i]).id != to,
        edge_position(edges, to) < edges.len() ==> edges[edge_position(edges, to) as int].id == to,
    decreases edges.len(),
{
    if edges.len() > 0 && edges[0].id != to {
        let rest = edges.drop_first();
        lemma_edge(rest, to);
        let k = edge_position(edges, to) as int;
        assert forall|i: int| 0 <= i < k implies (#[trigger] edges[i]).id != to by {
            if i > 0 {
                assert(rest[i - 1] == edges[i]);
            }
        }
        if k < edges.len() {
            assert(edges[k] == rest[k - 1]);
        }
    }
}

} // verus!
