//! Conversations found by similarity, and the recall edges between them.

use vstd::prelude::*;

use crate::models::conversation::ConversationId;

verus! {

/// A similarity score as an order key: a larger key is a greater similarity.
/// Callers map their scores to keys in an order-preserving way, with a key
/// below every threshold for a score that compares with nothing.
pub type Score = i64;

/// A dense vector, each component as the bits of its IEEE 754 single.
pub type Embedding = Vec<u32>;

/// A conversation found by vector similarity search.
#[derive(Debug, Clone, Copy, PartialEq, Eq, Structural)]
pub struct RelatedConversation {
    pub id: ConversationId,
    /// Similarity; higher means more similar.
    pub score: Score,
}

/// The position of the edge to `to`, or the number of edges.
pub open spec fn edge_position(edges: Seq<RelatedConversation>, to: ConversationId) -> nat
    decreases edges.len(),
{
    if edges.len() == 0 || edges[0].id == to {
        0
    } else {
        1 + edge_position(edges.drop_first(), to)
    }
}

/// The recall edges of a conversation with one recorded: an edge that is
/// there already keeps its place and takes the new score.
pub open spec fn with_edge(
    edges: Seq<RelatedConversation>,
    to: ConversationId,
    score: Score,
) -> Seq<RelatedConversation> {
    let k = edge_position(edges, to) as int;
    if k < edges.len() {
        edges.update(k, RelatedConversation { id: to, score })
    } else {
        edges.push(RelatedConversation { id: to, score })
    }
}

/// The conversations that edges lead to, in the order they were recorded.
pub open spec fn targets(edges: Seq<RelatedConversation>) -> Seq<ConversationId> {
    edges.map_values(|e: RelatedConversation| e.id)
}

pub(crate) proof fn lemma_edge_position(
    edges: Seq<RelatedConversation>,
    to: ConversationId,
    k: int,
)
    requires
        0 <= k <= edges.len(),
        forall|i: int| 0 <= i < k ==> (#[trigger] edges[i]).id != to,
        k < edges.len() ==> edges[k].id == to,
    ensures
        edge_position(edges, to) == k,
    decreases k,
{
    if k > 0 {
        let rest = edges.drop_first();
        assert forall|i: int| 0 <= i < k - 1 implies (#[trigger] rest[i]).id != to by {
            assert(rest[i] == edges[i + 1]);
        }
        lemma_edge_position(rest, to, k - 1);
    }
}

proof fn lemma_edge_found(edges: Seq<RelatedConversation>, to: ConversationId)
    ensures
        edge_position(edges, to) <= edges.len(),
        forall|i: int| 0 <= i < edge_position(edges, to) ==> (#[trigger] edges[i]).id != to,
        edge_position(edges, to) < edges.len() ==> edges[edge_position(edges, to) as int].id == to,
    decreases edges.len(),
{
    if edges.len() > 0 && edges[0].id != to {
        let rest = edges.drop_first();
        lemma_edge_found(rest, to);
        assert forall|i: int| 0 <= i < edge_position(edges, to) implies (#[trigger] edges[i]).id
            != to by {
            if i > 0 {
                assert(rest[i - 1] == edges[i]);
            }
        }
        let k = edge_position(edges, to) as int;
        if k < edges.len() {
            assert(edges[k] == rest[k - 1]);
        }
    }
}

/// Recording is idempotent: a second record of the same pair only replaces the
/// score. It adds no edge and moves none.
pub proof fn law_record_is_idempotent(
    edges: Seq<RelatedConversation>,
    to: ConversationId,
    first: Score,
    second: Score,
)
    ensures
        with_edge(with_edge(edges, to, first), to, second) == with_edge(edges, to, second),
        targets(with_edge(with_edge(edges, to, first), to, second)) == targets(
            with_edge(edges, to, first),
        ),
{
    lemma_edge_found(edges, to);
    let k = edge_position(edges, to) as int;
    let once = with_edge(edges, to, first);
    assert(once[k] == RelatedConversation { id: to, score: first });
    assert forall|i: int| 0 <= i < k implies (#[trigger] once[i]).id != to by {
        assert(once[i] == edges[i]);
    }
    lemma_edge_position(once, to, k);
    assert(with_edge(once, to, second) =~= with_edge(edges, to, second));
    assert(targets(with_edge(once, to, second)) =~= targets(once));
}

/// Recording one edge leaves every other one as it was, in its place.
pub proof fn law_record_keeps_the_others(
    edges: Seq<RelatedConversation>,
    to: ConversationId,
    score: Score,
    i: int,
)
    requires
        0 <= i < edges.len(),
        edges[i].id != to,
    ensures
        with_edge(edges, to, score)[i] == edges[i],
{
    lemma_edge_found(edges, to);
}

/// Records an edge.
pub fn record_edge(edges: &mut Vec<RelatedConversation>, to: ConversationId, score: Score)
    ensures
        final(edges)@ == with_edge(old(edges)@, to, score),
{
    let mut k: usize = 0;
    while k < edges.len() && edges[k].id != to
        invariant
            k <= edges@.len(),
            edges@ == old(edges)@,
            forall|i: int| 0 <= i < k ==> (#[trigger] edges@[i]).id != to,
        decreases edges@.len() - k,
    {
        k += 1;
    }
    proof {
        lemma_edge_position(edges@, to, k as int);
    }
    let edge = RelatedConversation { id: to, score };
    if k < edges.len() {
        edges.set(k, edge);
    } else {
        edges.push(edge);
    }
}

} // verus!
