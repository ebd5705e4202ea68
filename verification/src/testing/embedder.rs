//! An embedder that maps every text to the zero vector.

use vstd::prelude::*;
use vstd::string::*;

use crate::memory_index::Embedding;

verus! {

/// Records the texts it is given and answers with zero vectors.
#[derive(Debug)]
pub struct MockEmbedder {
    pub dimension: usize,
    pub calls: Vec<String>,
}

impl MockEmbedder {
    pub fn new(dimension: usize) -> (r: Self)
        ensures
            r.dimension == dimension,
            r.calls@.len() == 0,
    {
        MockEmbedder { dimension, calls: Vec::new() }
    }

    /// The texts that were embedded, in order.
    pub fn calls(&self) -> (r: Vec<String>)
        ensures
            r.deep_view() == self.calls.deep_view(),
    {
        let r = self.calls.clone();
        assert(r.deep_view() =~= self.calls.deep_view());
        r
    }

    pub fn embed(&mut self, text: &str) -> (r: Embedding)
        ensures
            r@ == Seq::new(old(self).dimension as nat, |i: int| 0u32),
            final(self).calls.deep_view() == old(self).calls.deep_view().push(text@),
            final(self).dimension == old(self).dimension,
    {
        self.calls.push(text.to_owned());
        assert(self.calls.deep_view() =~= old(self).calls.deep_view().push(text@));
        let mut r: Vec<u32> = Vec::new();
        let mut i: usize = 0;
        while i < self.dimension
            invariant
                i <= self.dimension,
                r@ == Seq::new(i as nat, |k: int| 0u32),
            decreases self.dimension - i,
        {
            r.push(0u32);
            assert(r@ =~= Seq::new((i + 1) as nat, |k: int| 0u32));
            i += 1;
        }
        r
    }
}

impl Default for MockEmbedder {
    fn default() -> (r: Self)
        ensures
            r.dimension == 1024,
            r.calls@.len() == 0,
    {
        Self::new(1024)
    }
}

} // verus!
