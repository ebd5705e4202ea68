//! A prompt registry that is filled by hand.

use vstd::prelude::*;
use vstd::string::*;

use crate::prompts::{leak, PromptRegistry, PromptTemplate, TemplateTable};

verus! {

/// Templates under given names.
#[derive(Debug)]
pub struct MockPromptRegistry {
    table: TemplateTable,
}

impl MockPromptRegistry {
    pub closed spec fn held(&self) -> Map<Seq<char>, Seq<char>> {
        self.table@
    }

    pub fn new() -> (r: Self)
        ensures
            r.templates() == Map::<Seq<char>, Seq<char>>::empty(),
    {
        MockPromptRegistry { table: TemplateTable::new() }
    }

    /// The registry with a template under a name, in place of an earlier one.
    pub fn with_template(self, name: &str, template: &str) -> (r: Self)
        ensures
            r.templates() == self.templates().insert(name@, template@),
    {
        let mut table = self.table;
        let name = leak(name.to_owned());
        let template = leak(template.to_owned());
        table.insert(PromptTemplate { name, template });
        MockPromptRegistry { table }
    }
}

impl Default for MockPromptRegistry {
    fn default() -> (r: Self)
        ensures
            r.templates() == Map::<Seq<char>, Seq<char>>::empty(),
    {
        Self::new()
    }
}

impl PromptRegistry for MockPromptRegistry {
    open spec fn templates(&self) -> Map<Seq<char>, Seq<char>> {
        self.held()
    }

    fn get(&self, name: &str) -> (r: Option<&PromptTemplate>) {
        self.table.get(name)
    }

    fn names(&self) -> (r: Vec<&str>) {
        self.table.names()
    }
}

} // verus!
