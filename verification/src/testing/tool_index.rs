//! A tool index that lives in memory.

use vstd::prelude::*;
use vstd::string::*;

use crate::memory_index::{Embedding, Score};
use crate::tool::ToolRegistry;
use crate::tool_index::{
    embedding_text, hidden_definitions, hidden_of, tool_embedding_text, top_k, top_of,
    DiscoveredTool, DiscoveredToolView,
};

verus! {

/// What a search compares an entry with: how similar it is, and how that is
/// shown.
#[derive(Debug)]
pub struct Similarity {
    pub score: Score,
    pub shown: String,
}

/// The names of the indexed tools and their embeddings.
#[derive(Debug)]
pub struct InMemoryToolIndex {
    pub names: Vec<String>,
    pub embeddings: Vec<Embedding>,
}

impl InMemoryToolIndex {
    /// Whether every indexed tool has its embedding.
    pub open spec fn well_formed(&self) -> bool {
        self.names@.len() == self.embeddings@.len()
    }

    pub fn new() -> (r: Self)
        ensures
            r.well_formed(),
            r.names@.len() == 0,
    {
        InMemoryToolIndex { names: Vec::new(), embeddings: Vec::new() }
    }

    /// The texts to embed for a registry, one for each hidden tool.
    pub fn texts<R: ToolRegistry>(registry: &R) -> (r: Vec<String>)
        ensures
            r@.len() == hidden_of(*registry).len(),
            forall|i: int|
                0 <= i < r@.len() ==> (#[trigger] r@[i])@ == embedding_text(
                    hidden_of(*registry)[i].name,
                    hidden_of(*registry)[i].description,
                ),
    {
        let hidden = hidden_definitions(registry);
        let mut r: Vec<String> = Vec::new();
        let mut i: usize = 0;
        while i < hidden.len()
            invariant
                i <= hidden@.len(),
                hidden.deep_view() == hidden_of(*registry),
                r@.len() == i,
                forall|k: int|
                    0 <= k < i ==> (#[trigger] r@[k])@ == embedding_text(
                        hidden_of(*registry)[k].name,
                        hidden_of(*registry)[k].description,
                    ),
            decreases hidden@.len() - i,
        {
            assert(hidden.deep_view()[i as int] == hidden@[i as int]@);
            r.push(tool_embedding_text(&hidden[i]));
            i += 1;
        }
        r
    }

    /// Rebuilds the index from a registry's hidden tools and the embeddings of
    /// their texts. Earlier entries are gone.
    pub fn index<R: ToolRegistry>(&mut self, registry: &R, embeddings: Vec<Embedding>)
        requires
            embeddings@.len() == hidden_of(*registry).len(),
        ensures
            final(self).well_formed(),
            final(self).embeddings == embeddings,
            final(self).names@.len() == hidden_of(*registry).len(),
            forall|i: int|
                0 <= i < final(self).names@.len() ==> (#[trigger] final(self).names@[i])@
                    == hidden_of(*registry)[i].name,
    {
        let hidden = hidden_definitions(registry);
        let mut names: Vec<String> = Vec::new();
        let mut i: usize = 0;
        while i < hidden.len()
            invariant
                i <= hidden@.len(),
                hidden.deep_view() == hidden_of(*registry),
                names@.len() == i,
                forall|k: int|
                    0 <= k < i ==> (#[trigger] names@[k])@ == hidden_of(*registry)[k].name,
            decreases hidden@.len() - i,
        {
            assert(hidden.deep_view()[i as int] == hidden@[i as int]@);
            names.push(hidden[i].name.clone());
            i += 1;
        }
        self.names = names;
        self.embeddings = embeddings;
    }

    /// Every indexed tool with the similarity that was found for it.
    pub open spec fn scored(&self, similarities: Seq<Similarity>) -> Seq<DiscoveredToolView> {
        Seq::new(
            self.names@.len(),
            |i: int|
                DiscoveredToolView {
                    name: self.names@[i]@,
                    score: similarities[i].score,
                    shown: similarities[i].shown@,
                },
        )
    }

    /// The up to `k` tools that are most similar, given how similar each entry
    /// is.
    pub fn search(&self, similarities: &Vec<Similarity>, k: usize) -> (r: Vec<DiscoveredTool>)
        requires
            similarities@.len() == self.names@.len(),
        ensures
            top_of(self.scored(similarities@), k as nat, r.deep_view()),
    {
        let mut all: Vec<DiscoveredTool> = Vec::new();
        let mut i: usize = 0;
        while i < self.names.len()
            invariant
                i <= self.names@.len(),
                similarities@.len() == self.names@.len(),
                all@.len() == i,
                forall|j: int| 0 <= j < i ==> (#[trigger] all@[j])@ == self.scored(similarities@)[j],
            decreases self.names@.len() - i,
        {
            all.push(
                DiscoveredTool {
                    name: self.names[i].clone(),
                    score: similarities[i].score,
                    shown: similarities[i].shown.clone(),
                },
            );
            i += 1;
        }
        assert(all.deep_view() =~= self.scored(similarities@));
        top_k(&all, k)
    }
}

impl Default for InMemoryToolIndex {
    fn default() -> (r: Self)
        ensures
            r.well_formed(),
            r.names@.len() == 0,
    {
        Self::new()
    }
}

} // verus!
