//! What the stand-ins do, in terms of what they were told.

use vstd::prelude::*;

use crate::testing::tool_index::{InMemoryToolIndex, Similarity};
use crate::testing::tool_registry::{replayed, ScriptView};
use crate::tool::ToolOutputView;

verus! {

/// A scripted tool answers with its outputs, the first of them first, and with
/// a failure that names it once they are used up; a tool that is not
/// registered fails by its name.
pub proof fn law_scripted_tool_replays_its_outputs(
    scripts: Map<Seq<char>, ScriptView>,
    name: Seq<char>,
    script: ScriptView,
    next: ToolOutputView,
)
    ensures
        replayed(
            scripts.insert(name, ScriptView { outputs: seq![next] + script.outputs, ..script }),
            name,
        ) == Ok::<ToolOutputView, Seq<char>>(next),
        replayed(scripts.insert(name, ScriptView { outputs: Seq::empty(), ..script }), name)
            == Err::<ToolOutputView, Seq<char>>("no more canned outputs for tool: "@ + name),
        replayed(scripts.remove(name), name) == Err::<ToolOutputView, Seq<char>>(
            "no tool registered: "@ + name,
        ),
{
}

/// Every indexed tool is compared by its own similarity.
pub proof fn law_indexed_tools_keep_their_similarity(
    index: InMemoryToolIndex,
    similarities: Seq<Similarity>,
)
    ensures
        index.scored(similarities).len() == index.names@.len(),
        forall|i: int|
            0 <= i < index.names@.len() ==> {
                let scored = #[trigger] index.scored(similarities)[i];
                &&& scored.name == index.names@[i]@
                &&& scored.score == similarities[i].score
                &&& scored.shown == similarities[i].shown@
            },
{
}

} // verus!
