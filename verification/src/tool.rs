//! Tools: how they describe themselves and how a registry finds them.

use vstd::prelude::*;
use vstd::string::*;

use crate::json::Json;
use crate::text::same;

verus! {

/// How a tool's resolution thread is run.
///
/// `Auto` tools resolve at once. `Confirm` tools resolve in a thread that
/// carries a dialogue with the user and ends in a decision.
#[derive(Debug, Clone, Copy, PartialEq, Eq, Structural)]
pub enum Policy {
    Auto,
    Confirm,
}

/// Whether a tool appears in the model's default tool list.
///
/// Hidden tools are registered and callable, and are surfaced on demand
/// through discovery.
#[derive(Debug, Clone, Copy, PartialEq, Eq, Structural)]
pub enum Visibility {
    Visible,
    Hidden,
}

impl Default for Visibility {
    fn default() -> (r: Self)
        ensures
            r == Visibility::Hidden,
    {
        Visibility::Hidden
    }
}

/// The result of executing a tool.
#[derive(Debug)]
pub struct ToolOutput {
    pub text: String,
    /// Whether the tool failed.
    pub is_error: bool,
}

#[verifier::ext_equal]
pub struct ToolOutputView {
    pub text: Seq<char>,
    pub is_error: bool,
}

impl View for ToolOutput {
    type V = ToolOutputView;

    open spec fn view(&self) -> ToolOutputView {
        ToolOutputView { text: self.text@, is_error: self.is_error }
    }
}

impl DeepView for ToolOutput {
    type V = ToolOutputView;

    open spec fn deep_view(&self) -> ToolOutputView {
        self@
    }
}

impl Clone for ToolOutput {
    fn clone(&self) -> (r: Self)
        ensures
            r@ == self@,
    {
        ToolOutput { text: self.text.clone(), is_error: self.is_error }
    }
}

/// The metadata the language model sees for a tool.
#[derive(Debug)]
pub struct ToolDefinition {
    pub name: String,
    pub description: String,
    pub input_schema: Json,
}

#[verifier::ext_equal]
pub struct ToolDefinitionView {
    pub name: Seq<char>,
    pub description: Seq<char>,
    pub input_schema: Seq<char>,
}

impl View for ToolDefinition {
    type V = ToolDefinitionView;

    open spec fn view(&self) -> ToolDefinitionView {
        ToolDefinitionView {
            name: self.name@,
            description: self.description@,
            input_schema: self.input_schema@,
        }
    }
}

impl DeepView for ToolDefinition {
    type V = ToolDefinitionView;

    open spec fn deep_view(&self) -> ToolDefinitionView {
        self@
    }
}

impl Clone for ToolDefinition {
    fn clone(&self) -> (r: Self)
        ensures
            r@ == self@,
    {
        ToolDefinition {
            name: self.name.clone(),
            description: self.description.clone(),
            input_schema: self.input_schema.clone(),
        }
    }
}

/// A copy of a list of definitions.
pub fn clone_definitions(v: &Vec<ToolDefinition>) -> (r: Vec<ToolDefinition>)
    ensures
        r.deep_view() == v.deep_view(),
{
    let r = v.clone();
    assert(r.deep_view() =~= v.deep_view());
    r
}

/// A self-describing capability the model can invoke.
pub trait Tool {
    /// The tool's own description of itself.
    spec fn described(&self) -> ToolDefinitionView;

    fn name(&self) -> (r: &str)
        ensures
            r@ == self.described().name,
    ;

    fn description(&self) -> (r: &str)
        ensures
            r@ == self.described().description,
    ;

    fn input_schema(&self) -> (r: Json)
        ensures
            r@ == self.described().input_schema,
    ;

    fn policy(&self) -> (r: Policy)
        default_ensures
            r == Policy::Auto,
    {
        Policy::Auto
    }

    fn visibility(&self) -> (r: Visibility)
        default_ensures
            r == Visibility::Hidden,
    {
        Visibility::Hidden
    }

    fn definition(&self) -> (r: ToolDefinition)
        ensures
            r@ == self.described(),
    {
        ToolDefinition {
            name: self.name().to_owned(),
            description: self.description().to_owned(),
            input_schema: self.input_schema(),
        }
    }

    fn is_visible(&self) -> (r: bool)
        ensures
            exists|v: Visibility| #[trigger]
                call_ensures(Self::visibility, (self,), v) && r == (v == Visibility::Visible),
    {
        let v = self.visibility();
        matches!(v, Visibility::Visible)
    }
}

/// Looks up tools by name.
pub trait ToolRegistry {
    /// The registered definitions, in order of registration.
    spec fn defined(&self) -> Seq<ToolDefinitionView>;

    spec fn policy_of(&self, name: Seq<char>) -> Option<Policy>;

    spec fn visibility_of(&self, name: Seq<char>) -> Option<Visibility>;

    fn names(&self) -> (r: Vec<String>)
        ensures
            r.deep_view() == self.defined().map_values(|d: ToolDefinitionView| d.name),
    ;

    /// All registered definitions, regardless of visibility.
    fn definitions(&self) -> (r: Vec<ToolDefinition>)
        ensures
            r.deep_view() == self.defined(),
    ;

    fn policy(&self, name: &str) -> (r: Option<Policy>)
        ensures
            r == self.policy_of(name@),
    ;

    fn visibility(&self, name: &str) -> (r: Option<Visibility>)
        ensures
            r == self.visibility_of(name@),
    ;

    /// Definitions for tools visible in the default tool list.
    fn visible_definitions(&self) -> (r: Vec<ToolDefinition>)
        ensures
            r.deep_view() == self.defined().filter(
                |d: ToolDefinitionView| self.visibility_of(d.name) == Some(Visibility::Visible),
            ),
    {
        let all = self.definitions();
        let mut r: Vec<ToolDefinition> = Vec::new();
        let ghost shown = |d: ToolDefinitionView|
            self.visibility_of(d.name) == Some(Visibility::Visible);
        let mut i: usize = 0;
        while i < all.len()
            invariant
                i <= all@.len(),
                all.deep_view() == self.defined(),
                shown == |d: ToolDefinitionView|
                    self.visibility_of(d.name) == Some(Visibility::Visible),
                r.deep_view() == self.defined().take(i as int).filter(shown),
            decreases all@.len() - i,
        {
            proof {
                reveal(Seq::filter);
                let next = self.defined().take(i + 1);
                assert(next.drop_last() =~= self.defined().take(i as int));
                assert(next.last() == all@[i as int]@);
            }
            if self.visibility(all[i].name.as_str()) == Some(Visibility::Visible) {
                let ghost before = r.deep_view();
                r.push(all[i].clone());
                assert(r.deep_view() =~= before.push(all@[i as int]@));
            }
            i += 1;
        }
        assert(self.defined().take(i as int) =~= self.defined());
        r
    }
}

/// What a registry keeps of a tool: its definition, policy and visibility as
/// the tool stated them when it was asked.
#[derive(Debug)]
pub struct ToolEntry {
    pub definition: ToolDefinition,
    pub policy: Policy,
    pub visibility: Visibility,
}

/// The position of the first entry under `name`, or the number of entries.
pub open spec fn first_named(entries: Seq<ToolEntry>, name: Seq<char>) -> int
    decreases entries.len(),
{
    if entries.len() == 0 || entries[0].definition.name@ == name {
        0
    } else {
        1 + first_named(entries.drop_first(), name)
    }
}

proof fn lemma_first_named(entries: Seq<ToolEntry>, name: Seq<char>, k: int)
    requires
        0 <= k <= entries.len(),
        forall|i: int| 0 <= i < k ==> (#[trigger] entries[i]).definition.name@ != name,
        k < entries.len() ==> entries[k].definition.name@ == name,
    ensures
        first_named(entries, name) == k,
    decreases k,
{
    if k > 0 {
        let rest = entries.drop_first();
        assert forall|i: int| 0 <= i < k - 1 implies (#[trigger] rest[i]).definition.name@ != name by {
            assert(rest[i] == entries[i + 1]);
        }
        lemma_first_named(rest, name, k - 1);
    }
}

/// A registry backed by a fixed list of tools.
#[derive(Debug)]
pub struct StaticToolRegistry {
    entries: Vec<ToolEntry>,
}

impl ToolEntry {
    /// Asks a tool for what a registry keeps of it.
    pub fn of<T: Tool>(tool: &T) -> (r: ToolEntry)
        ensures
            r.definition@ == tool.described(),
            call_ensures(T::policy, (tool,), r.policy),
            call_ensures(T::visibility, (tool,), r.visibility),
    {
        let definition = tool.definition();
        let policy = tool.policy();
        let visibility = tool.visibility();
        ToolEntry { definition, policy, visibility }
    }
}

impl StaticToolRegistry {
    pub closed spec fn entries(&self) -> Seq<ToolEntry> {
        self.entries@
    }

    /// A registry of the given tools, in their order.
    pub fn new(entries: Vec<ToolEntry>) -> (r: Self)
        ensures
            r.entries() == entries@,
    {
        StaticToolRegistry { entries }
    }

    /// The position of the tool to run for a call of `name`: the first tool
    /// registered under it.
    pub fn position(&self, name: &str) -> (r: Option<usize>)
        ensures
            match r {
                Some(i) => i == first_named(self.entries(), name@) && i < self.entries().len(),
                None => first_named(self.entries(), name@) == self.entries().len(),
            },
    {
        let mut i: usize = 0;
        while i < self.entries.len()
            invariant
                i <= self.entries@.len(),
                forall|k: int| 0 <= k < i ==> (#[trigger] self.entries@[k]).definition.name@ != name@,
            decreases self.entries@.len() - i,
        {
            if same(self.entries[i].definition.name.as_str(), name) {
                proof {
                    lemma_first_named(self.entries@, name@, i as int);
                }
                return Some(i);
            }
            i += 1;
        }
        proof {
            lemma_first_named(self.entries@, name@, i as int);
        }
        None
    }

    /// The error text for a call of a tool that is not registered.
    pub fn missing(name: &str) -> (r: String)
        ensures
            r@ == "no tool registered: "@ + name@,
    {
        let mut r = "no tool registered: ".to_owned();
        r.append(name);
        r
    }
}

impl ToolRegistry for StaticToolRegistry {
    open spec fn defined(&self) -> Seq<ToolDefinitionView> {
        self.entries().map_values(|e: ToolEntry| e.definition@)
    }

    open spec fn policy_of(&self, name: Seq<char>) -> Option<Policy> {
        let i = first_named(self.entries(), name);
        if i < self.entries().len() {
            Some(self.entries()[i].policy)
        } else {
            None
        }
    }

    open spec fn visibility_of(&self, name: Seq<char>) -> Option<Visibility> {
        let i = first_named(self.entries(), name);
        if i < self.entries().len() {
            Some(self.entries()[i].visibility)
        } else {
            None
        }
    }

    fn names(&self) -> (r: Vec<String>) {
        let mut r: Vec<String> = Vec::new();
        let mut i: usize = 0;
        while i < self.entries.len()
            invariant
                i <= self.entries@.len(),
                r@.len() == i,
                forall|k: int| 0 <= k < i ==> (#[trigger] r@[k])@ == self.entries@[k].definition.name@,
            decreases self.entries@.len() - i,
        {
            r.push(self.entries[i].definition.name.clone());
            i += 1;
        }
        r
    }

    fn definitions(&self) -> (r: Vec<ToolDefinition>) {
        let mut r: Vec<ToolDefinition> = Vec::new();
        let mut i: usize = 0;
        while i < self.entries.len()
            invariant
                i <= self.entries@.len(),
                r@.len() == i,
                forall|k: int| 0 <= k < i ==> (#[trigger] r@[k])@ == self.entries@[k].definition@,
            decreases self.entries@.len() - i,
        {
            r.push(self.entries[i].definition.clone());
            i += 1;
        }
        r
    }

    fn policy(&self, name: &str) -> (r: Option<Policy>) {
        match self.position(name) {
            Some(i) => Some(self.entries[i].policy),
            None => None,
        }
    }

    fn visibility(&self, name: &str) -> (r: Option<Visibility>) {
        match self.position(name) {
            Some(i) => Some(self.entries[i].visibility),
            None => None,
        }
    }
}

/// The definitions that a registry of these entries shows by default.
pub open spec fn shown_by_default(registry: StaticToolRegistry) -> Seq<ToolDefinitionView> {
    registry.defined().filter(
        |d: ToolDefinitionView| registry.visibility_of(d.name) == Some(Visibility::Visible),
    )
}

proof fn lemma_named_in_front(entries: Seq<ToolEntry>, more: ToolEntry, name: Seq<char>)
    ensures
        first_named(entries, name) < entries.len() ==> first_named(entries.push(more), name)
            == first_named(entries, name),
        first_named(entries, name) >= entries.len() ==> first_named(entries, name) == entries.len()
            && first_named(entries.push(more), name) >= entries.len(),
        0 <= first_named(entries, name) <= entries.len(),
        first_named(entries, name) < entries.len() ==> entries[first_named(
            entries,
            name,
        )].definition.name@ == name,
        more.definition.name@ == name && first_named(entries, name) == entries.len()
            ==> first_named(entries.push(more), name) == entries.len(),
    decreases entries.len(),
{
    reveal_with_fuel(first_named, 2);
    if entries.len() > 0 {
        let rest = entries.drop_first();
        lemma_named_in_front(rest, more, name);
        assert(entries.push(more).drop_first() =~= rest.push(more));
    }
}

proof fn lemma_unnamed(entries: Seq<ToolEntry>, name: Seq<char>, i: int)
    requires
        first_named(entries, name) == entries.len(),
        0 <= i < entries.len(),
    ensures
        entries[i].definition.name@ != name,
    decreases entries.len(),
{
    if i > 0 {
        lemma_first_named_bound(entries.drop_first(), name);
        lemma_unnamed(entries.drop_first(), name, i - 1);
    }
}

proof fn lemma_first_named_bound(entries: Seq<ToolEntry>, name: Seq<char>)
    ensures
        0 <= first_named(entries, name) <= entries.len(),
    decreases entries.len(),
{
    if entries.len() > 0 && entries[0].definition.name@ != name {
        lemma_first_named_bound(entries.drop_first(), name);
    }
}

proof fn lemma_same_filter(
    definitions: Seq<ToolDefinitionView>,
    p: spec_fn(ToolDefinitionView) -> bool,
    q: spec_fn(ToolDefinitionView) -> bool,
)
    requires
        forall|i: int|
            0 <= i < definitions.len() ==> p(#[trigger] definitions[i]) == q(definitions[i]),
    ensures
        definitions.filter(p) == definitions.filter(q),
    decreases definitions.len(),
{
    reveal(Seq::filter);
    if definitions.len() > 0 {
        let front = definitions.drop_last();
        assert forall|i: int| 0 <= i < front.len() implies p(#[trigger] front[i]) == q(
            front[i],
        ) by {
            assert(front[i] == definitions[i]);
        }
        lemma_same_filter(front, p, q);
        assert(definitions.last() == definitions[definitions.len() - 1]);
    }
}

/// Registering a hidden tool under a new name never grows the list of tools
/// that the model is shown by default.
pub proof fn law_hidden_tool_is_not_shown(
    before: StaticToolRegistry,
    after: StaticToolRegistry,
    tool: ToolEntry,
)
    requires
        after.entries() == before.entries().push(tool),
        tool.visibility == Visibility::Hidden,
        before.visibility_of(tool.definition.name@) is None,
    ensures
        shown_by_default(after) == shown_by_default(before),
        after.visibility_of(tool.definition.name@) == Some(Visibility::Hidden),
{
    let entries = before.entries();
    let p = |d: ToolDefinitionView| after.visibility_of(d.name) == Some(Visibility::Visible);
    let q = |d: ToolDefinitionView| before.visibility_of(d.name) == Some(Visibility::Visible);
    let name = tool.definition.name@;
    lemma_named_in_front(entries, tool, name);
    assert(after.defined() =~= before.defined().push(tool.definition@));
    assert forall|i: int| 0 <= i < before.defined().len() implies p(
        #[trigger] before.defined()[i],
    ) == q(before.defined()[i]) by {
        let d = before.defined()[i];
        lemma_named_in_front(entries, tool, d.name);
        if first_named(entries, d.name) == entries.len() {
            lemma_unnamed(entries, d.name, i);
        }
    }
    lemma_same_filter(before.defined(), p, q);
    reveal(Seq::filter);
    assert(after.defined().drop_last() =~= before.defined());
}

/// A registry with no tools.
#[derive(Debug, Clone, Copy)]
pub struct EmptyToolRegistry;

impl EmptyToolRegistry {
    /// The error text for a call of any tool.
    pub fn missing(name: &str) -> (r: String)
        ensures
            r@ == "no tools registered; cannot execute: "@ + name@,
    {
        let mut r = "no tools registered; cannot execute: ".to_owned();
        r.append(name);
        r
    }
}

impl ToolRegistry for EmptyToolRegistry {
    open spec fn defined(&self) -> Seq<ToolDefinitionView> {
        Seq::empty()
    }

    open spec fn policy_of(&self, name: Seq<char>) -> Option<Policy> {
        None
    }

    open spec fn visibility_of(&self, name: Seq<char>) -> Option<Visibility> {
        None
    }

    fn names(&self) -> (r: Vec<String>) {
        Vec::new()
    }

    fn definitions(&self) -> (r: Vec<ToolDefinition>) {
        Vec::new()
    }

    fn policy(&self, name: &str) -> (r: Option<Policy>) {
        None
    }

    fn visibility(&self, name: &str) -> (r: Option<Visibility>) {
        None
    }
}

} // verus!
