//! A scripted memory index.

use std::collections::HashMap;

use vstd::prelude::*;

use crate::memory_index::{record_edge, targets, with_edge, Embedding, RelatedConversation, Score};
use crate::models::conversation::ConversationId;

verus! {

broadcast use vstd::std_specs::hash::group_hash_axioms;

/// A recorded call of `index_summary`.
#[derive(Debug)]
pub struct IndexSummaryCall {
    pub id: ConversationId,
    pub embedding: Embedding,
}

impl Clone for IndexSummaryCall {
    fn clone(&self) -> (r: Self)
        ensures
            r.id == self.id,
            r.embedding@ == self.embedding@,
    {
        IndexSummaryCall { id: self.id, embedding: self.embedding.clone() }
    }
}

/// A recorded call of `record_recall`.
#[derive(Debug, Clone, Copy, PartialEq, Eq, Structural)]
pub struct RecordRecallCall {
    pub from: ConversationId,
    pub to: ConversationId,
    pub score: Score,
}

/// A recorded call of `search`.
#[derive(Debug)]
pub struct SearchCall {
    pub query: Embedding,
    pub k: usize,
    pub exclude: Option<ConversationId>,
}

impl Clone for SearchCall {
    fn clone(&self) -> (r: Self)
        ensures
            r.query@ == self.query@,
            r.k == self.k,
            r.exclude == self.exclude,
    {
        SearchCall { query: self.query.clone(), k: self.k, exclude: self.exclude }
    }
}

/// A memory index that replays seeded search results, records its calls and
/// keeps recall edges.
#[derive(Debug)]
pub struct MockMemoryIndex {
    /// Results for the next searches, in order.
    pub search_results: Vec<Vec<RelatedConversation>>,
    pub indexed: Vec<IndexSummaryCall>,
    pub recalls: Vec<RecordRecallCall>,
    pub search_calls: Vec<SearchCall>,
    /// Recall edges, by the conversation they start from.
    pub edges: HashMap<u128, Vec<RelatedConversation>>,
}

impl MockMemoryIndex {
    /// The recall edges of a conversation.
    pub open spec fn edges_from(&self, from: ConversationId) -> Seq<RelatedConversation> {
        if self.edges@.contains_key(from.0) {
            self.edges@[from.0]@
        } else {
            Seq::empty()
        }
    }

    pub fn new() -> (r: Self)
        ensures
            r.search_results@.len() == 0,
            r.indexed@.len() == 0,
            r.recalls@.len() == 0,
            r.search_calls@.len() == 0,
            forall|from: ConversationId| #[trigger] r.edges_from(from).len() == 0,
    {
        MockMemoryIndex {
            search_results: Vec::new(),
            indexed: Vec::new(),
            recalls: Vec::new(),
            search_calls: Vec::new(),
            edges: HashMap::new(),
        }
    }

    /// Seeds the next search that has no results yet.
    pub fn push_search(&mut self, results: Vec<RelatedConversation>)
        ensures
            final(self).search_results@ == old(self).search_results@.push(results),
            final(self).indexed == old(self).indexed,
            final(self).recalls == old(self).recalls,
            final(self).search_calls == old(self).search_calls,
            forall|from: ConversationId| #[trigger]
                final(self).edges_from(from) == old(self).edges_from(from),
    {
        self.search_results.push(results);
    }

    /// The recorded `index_summary` calls.
    pub fn indexed(&self) -> (r: Vec<IndexSummaryCall>)
        ensures
            r@.len() == self.indexed@.len(),
            forall|i: int|
                0 <= i < r@.len() ==> (#[trigger] r@[i]).id == self.indexed@[i].id
                    && r@[i].embedding@ == self.indexed@[i].embedding@,
    {
        self.indexed.clone()
    }

    /// The recorded `record_recall` calls.
    pub fn recalls(&self) -> (r: Vec<RecordRecallCall>)
        ensures
            r@ == self.recalls@,
    {
        self.recalls.clone()
    }

    /// The recorded `search` calls.
    pub fn search_calls(&self) -> (r: Vec<SearchCall>)
        ensures
            r@.len() == self.search_calls@.len(),
            forall|i: int|
                0 <= i < r@.len() ==> (#[trigger] r@[i]).query@ == self.search_calls@[i].query@
                    && r@[i].k == self.search_calls@[i].k && r@[i].exclude
                    == self.search_calls@[i].exclude,
    {
        self.search_calls.clone()
    }

    pub fn index_summary(&mut self, id: ConversationId, embedding: Embedding)
        ensures
            final(self).indexed@ == old(self).indexed@.push(IndexSummaryCall { id, embedding }),
            final(self).search_results == old(self).search_results,
            final(self).recalls == old(self).recalls,
            final(self).search_calls == old(self).search_calls,
            forall|from: ConversationId| #[trigger]
                final(self).edges_from(from) == old(self).edges_from(from),
    {
        self.indexed.push(IndexSummaryCall { id, embedding });
    }

    /// The next seeded results; nothing once they are used up.
    pub fn search(&mut self, query: Embedding, k: usize, exclude: Option<ConversationId>) -> (r: Vec<
        RelatedConversation,
    >)
        ensures
            final(self).search_calls@ == old(self).search_calls@.push(
                SearchCall { query, k, exclude },
            ),
            old(self).search_results@.len() == 0 ==> r@.len() == 0 && final(self).search_results@
                == old(self).search_results@,
            old(self).search_results@.len() > 0 ==> r == old(self).search_results@[0] && final(self).search_results@ == old(self).search_results@.drop_first(),
            final(self).indexed == old(self).indexed,
            final(self).recalls == old(self).recalls,
            forall|from: ConversationId| #[trigger]
                final(self).edges_from(from) == old(self).edges_from(from),
    {
        self.search_calls.push(SearchCall { query, k, exclude });
        if self.search_results.len() == 0 {
            Vec::new()
        } else {
            let r = self.search_results.remove(0);
            assert(self.search_results@ =~= old(self).search_results@.drop_first());
            r
        }
    }

    /// Records a recall edge. A second call with the same pair replaces the
    /// score in place.
    pub fn record_recall(&mut self, from: ConversationId, to: ConversationId, score: Score)
        ensures
            final(self).recalls@ == old(self).recalls@.push(RecordRecallCall { from, to, score }),
            final(self).edges_from(from) == with_edge(old(self).edges_from(from), to, score),
            forall|other: ConversationId|
                other != from ==> #[trigger] final(self).edges_from(other) == old(self).edges_from(other),
            final(self).search_results == old(self).search_results,
            final(self).indexed == old(self).indexed,
            final(self).search_calls == old(self).search_calls,
    {
        self.recalls.push(RecordRecallCall { from, to, score });
        let mut edges = match self.edges.remove(&from.0) {
            Some(edges) => edges,
            None => Vec::new(),
        };
        record_edge(&mut edges, to, score);
        self.edges.insert(from.0, edges);
    }

    /// The conversations that one recalls, in the order they were recorded.
    pub fn recalled(&self, from: ConversationId) -> (r: Vec<ConversationId>)
        ensures
            r@ == targets(self.edges_from(from)),
    {
        let mut r: Vec<ConversationId> = Vec::new();
        match self.edges.get(&from.0) {
            Some(edges) => {
                let mut i: usize = 0;
                while i < edges.len()
                    invariant
                        i <= edges@.len(),
                        r@.len() == i,
                        forall|k: int| 0 <= k < i ==> #[trigger] r@[k] == edges@[k].id,
                    decreases edges@.len() - i,
                {
                    r.push(edges[i].id);
                    i += 1;
                }
            },
            None => {},
        }
        assert(r@ =~= targets(self.edges_from(from)));
        r
    }
}

impl Default for MockMemoryIndex {
    fn default() -> (r: Self)
        ensures
            r.search_results@.len() == 0,
            r.indexed@.len() == 0,
            r.recalls@.len() == 0,
            r.search_calls@.len() == 0,
            forall|from: ConversationId| #[trigger] r.edges_from(from).len() == 0,
    {
        Self::new()
    }
}

} // verus!
