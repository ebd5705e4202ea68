//! A scripted tool registry.

use vstd::prelude::*;
use vstd::string::*;

use crate::failure::Failure;
use crate::json::{document, Json};
use crate::text::same;
use crate::tool::{
    clone_definitions, Policy, ToolDefinition, ToolDefinitionView, ToolOutput, ToolOutputView,
    ToolRegistry, Visibility,
};

verus! {

/// What is scripted for a tool name.
#[derive(Debug)]
struct Scripted {
    name: String,
    policy: Policy,
    visibility: Visibility,
    outputs: Vec<ToolOutput>,
}

/// The script of a tool.
#[verifier::ext_equal]
pub struct ScriptView {
    pub policy: Policy,
    pub visibility: Visibility,
    pub outputs: Seq<ToolOutputView>,
}

impl Scripted {
    spec fn script(self) -> ScriptView {
        ScriptView {
            policy: self.policy,
            visibility: self.visibility,
            outputs: self.outputs.deep_view(),
        }
    }
}

/// The scripts by tool name; of several with one name the last counts.
spec fn scripts_of(tools: Seq<Scripted>) -> Map<Seq<char>, ScriptView>
    decreases tools.len(),
{
    if tools.len() == 0 {
        Map::empty()
    } else {
        scripts_of(tools.drop_last()).insert(tools.last().name@, tools.last().script())
    }
}

proof fn lemma_scripts(tools: Seq<Scripted>, name: Seq<char>, k: int)
    requires
        -1 <= k < tools.len(),
        k >= 0 ==> tools[k].name@ == name,
        forall|i: int| k < i < tools.len() ==> (#[trigger] tools[i]).name@ != name,
    ensures
        scripts_of(tools).contains_key(name) <==> k >= 0,
        k >= 0 ==> scripts_of(tools)[name] == tools[k].script(),
    decreases tools.len(),
{
    if tools.len() > 0 && k < tools.len() - 1 {
        assert(tools[tools.len() - 1].name@ != name);
        lemma_scripts(tools.drop_last(), name, k);
    }
}

proof fn lemma_scripts_update(tools: Seq<Scripted>, k: int, tool: Scripted)
    requires
        0 <= k < tools.len(),
        tool.name@ == tools[k].name@,
        forall|i: int| k < i < tools.len() ==> (#[trigger] tools[i]).name@ != tool.name@,
    ensures
        scripts_of(tools.update(k, tool)) == scripts_of(tools).insert(tool.name@, tool.script()),
    decreases tools.len(),
{
    let changed = tools.update(k, tool);
    if k == tools.len() - 1 {
        assert(changed.drop_last() =~= tools.drop_last());
        assert(scripts_of(changed) =~= scripts_of(tools).insert(tool.name@, tool.script()));
    } else {
        let last = tools[tools.len() - 1];
        lemma_scripts_update(tools.drop_last(), k, tool);
        assert(changed.drop_last() =~= tools.drop_last().update(k, tool));
        assert(changed.last() == last);
        assert(last.name@ != tool.name@);
        assert(scripts_of(changed) =~= scripts_of(tools).insert(tool.name@, tool.script()));
    }
}

/// A recorded execution: the tool's name and its input.
#[derive(Debug)]
pub struct Execution {
    pub name: String,
    pub input: Json,
}

#[verifier::ext_equal]
pub struct ExecutionView {
    pub name: Seq<char>,
    pub input: Seq<char>,
}

impl View for Execution {
    type V = ExecutionView;

    open spec fn view(&self) -> ExecutionView {
        ExecutionView { name: self.name@, input: self.input@ }
    }
}

impl DeepView for Execution {
    type V = ExecutionView;

    open spec fn deep_view(&self) -> ExecutionView {
        self@
    }
}

impl Clone for Execution {
    fn clone(&self) -> (r: Self)
        ensures
            r@ == self@,
    {
        Execution { name: self.name.clone(), input: self.input.clone() }
    }
}

/// A registry that replays canned outputs, in order, for each tool name, and
/// records every execution.
#[derive(Debug)]
pub struct MockToolRegistry {
    definitions: Vec<ToolDefinition>,
    tools: Vec<Scripted>,
    executions: Vec<Execution>,
}

/// What executing a scripted tool gives.
pub open spec fn replayed(scripts: Map<Seq<char>, ScriptView>, name: Seq<char>) -> Result<
    ToolOutputView,
    Seq<char>,
> {
    if !scripts.contains_key(name) {
        Err("no tool registered: "@ + name)
    } else if scripts[name].outputs.len() == 0 {
        Err("no more canned outputs for tool: "@ + name)
    } else {
        Ok(scripts[name].outputs[0])
    }
}

impl MockToolRegistry {
    pub closed spec fn known(&self) -> Seq<ToolDefinitionView> {
        self.definitions.deep_view()
    }

    /// The script of each tool, by name.
    pub closed spec fn scripts(&self) -> Map<Seq<char>, ScriptView> {
        scripts_of(self.tools@)
    }

    /// Every execution, in order.
    pub closed spec fn executed(&self) -> Seq<ExecutionView> {
        self.executions.deep_view()
    }

    pub fn new() -> (r: Self)
        ensures
            r.known() == Seq::<ToolDefinitionView>::empty(),
            r.scripts() == Map::<Seq<char>, ScriptView>::empty(),
            r.executed() == Seq::<ExecutionView>::empty(),
    {
        let r = MockToolRegistry {
            definitions: Vec::new(),
            tools: Vec::new(),
            executions: Vec::new(),
        };
        assert(r.known() =~= Seq::<ToolDefinitionView>::empty());
        assert(r.executed() =~= Seq::<ExecutionView>::empty());
        r
    }

    fn with_tool(
        self,
        name: &str,
        description: &str,
        policy: Policy,
        visibility: Visibility,
        outputs: Vec<ToolOutput>,
    ) -> (r: Self)
        ensures
            r.known() == self.known().push(
                ToolDefinitionView {
                    name: name@,
                    description: description@,
                    input_schema: document("{\"type\":\"object\"}"@),
                },
            ),
            r.scripts() == self.scripts().insert(
                name@,
                ScriptView { policy, visibility, outputs: outputs.deep_view() },
            ),
            r.executed() == self.executed(),
    {
        let MockToolRegistry { mut definitions, mut tools, executions } = self;
        let definition = ToolDefinition {
            name: name.to_owned(),
            description: description.to_owned(),
            input_schema: Json::parse_or_null("{\"type\":\"object\"}"),
        };
        let ghost known = definitions.deep_view();
        let ghost added = definition@;
        definitions.push(definition);
        assert(definitions.deep_view() =~= known.push(added));
        let ghost before = tools@;
        tools.push(Scripted { name: name.to_owned(), policy, visibility, outputs });
        assert(tools@.drop_last() =~= before);
        MockToolRegistry { definitions, tools, executions }
    }

    /// Registers a visible tool with its policy and canned outputs.
    pub fn register(
        self,
        name: &str,
        description: &str,
        policy: Policy,
        outputs: Vec<ToolOutput>,
    ) -> (r: Self)
        ensures
            r.known() == self.known().push(
                ToolDefinitionView {
                    name: name@,
                    description: description@,
                    input_schema: document("{\"type\":\"object\"}"@),
                },
            ),
            r.scripts() == self.scripts().insert(
                name@,
                ScriptView {
                    policy,
                    visibility: Visibility::Visible,
                    outputs: outputs.deep_view(),
                },
            ),
            r.executed() == self.executed(),
    {
        self.with_tool(name, description, policy, Visibility::Visible, outputs)
    }

    /// Registers a hidden tool with its policy and canned outputs.
    pub fn register_hidden(
        self,
        name: &str,
        description: &str,
        policy: Policy,
        outputs: Vec<ToolOutput>,
    ) -> (r: Self)
        ensures
            r.known() == self.known().push(
                ToolDefinitionView {
                    name: name@,
                    description: description@,
                    input_schema: document("{\"type\":\"object\"}"@),
                },
            ),
            r.scripts() == self.scripts().insert(
                name@,
                ScriptView {
                    policy,
                    visibility: Visibility::Hidden,
                    outputs: outputs.deep_view(),
                },
            ),
            r.executed() == self.executed(),
    {
        self.with_tool(name, description, policy, Visibility::Hidden, outputs)
    }

    /// Every execution, in order.
    pub fn executions(&self) -> (r: Vec<Execution>)
        ensures
            r.deep_view() == self.executed(),
    {
        let r = self.executions.clone();
        assert(r.deep_view() =~= self.executions.deep_view());
        r
    }

    fn find(&self, name: &str) -> (r: Option<usize>)
        ensures
            match r {
                Some(k) => {
                    &&& k < self.tools@.len()
                    &&& self.tools@[k as int].name@ == name@
                    &&& forall|i: int|
                        k < i < self.tools@.len() ==> (#[trigger] self.tools@[i]).name@ != name@
                    &&& self.scripts().contains_key(name@)
                    &&& self.scripts()[name@] == self.tools@[k as int].script()
                },
                None => !self.scripts().contains_key(name@),
            },
    {
        let mut i: usize = self.tools.len();
        while i > 0
            invariant
                i <= self.tools@.len(),
                forall|k: int|
                    i <= k < self.tools@.len() ==> (#[trigger] self.tools@[k]).name@ != name@,
            decreases i,
        {
            i -= 1;
            if same(self.tools[i].name.as_str(), name) {
                proof {
                    lemma_scripts(self.tools@, name@, i as int);
                }
                return Some(i);
            }
        }
        proof {
            lemma_scripts(self.tools@, name@, -1);
        }
        None
    }

    /// Records the execution and replays the tool's next output. A tool that
    /// is not registered, or has no output left, fails.
    pub fn execute(&mut self, name: &str, input: Json) -> (r: Result<ToolOutput, Failure>)
        ensures
            match r {
                Ok(output) => replayed(old(self).scripts(), name@) == Ok::<
                    ToolOutputView,
                    Seq<char>,
                >(output@),
                Err(failure) => replayed(old(self).scripts(), name@) == Err::<
                    ToolOutputView,
                    Seq<char>,
                >(failure@),
            },
            final(self).executed() == old(self).executed().push(
                ExecutionView { name: name@, input: input@ },
            ),
            final(self).known() == old(self).known(),
            final(self).scripts() == if r is Ok {
                old(self).scripts().insert(
                    name@,
                    ScriptView {
                        outputs: old(self).scripts()[name@].outputs.drop_first(),
                        ..old(self).scripts()[name@]
                    },
                )
            } else {
                old(self).scripts()
            },
    {
        let ghost given = input@;
        self.executions.push(Execution { name: name.to_owned(), input });
        assert(self.executions.deep_view() =~= old(self).executions.deep_view().push(
            ExecutionView { name: name@, input: given },
        ));
        match self.find(name) {
            Some(k) => {
                if self.tools[k].outputs.len() == 0 {
                    assert(self.tools@[k as int].script().outputs.len() == 0);
                    let mut message = "no more canned outputs for tool: ".to_owned();
                    message.append(name);
                    Err(Failure { message })
                } else {
                    let ghost before = self.tools@;
                    let Scripted { name: tool_name, policy, visibility, mut outputs } =
                        self.tools.remove(k);
                    let ghost queue = outputs.deep_view();
                    let output = outputs.remove(0);
                    assert(outputs.deep_view() =~= queue.drop_first());
                    assert(output@ == queue[0]);
                    let tool = Scripted { name: tool_name, policy, visibility, outputs };
                    let ghost next = tool;
                    self.tools.insert(k, tool);
                    proof {
                        assert(self.tools@ =~= before.update(k as int, next));
                        lemma_scripts_update(before, k as int, next);
                    }
                    Ok(output)
                }
            },
            None => {
                let mut message = "no tool registered: ".to_owned();
                message.append(name);
                Err(Failure { message })
            },
        }
    }
}

impl Default for MockToolRegistry {
    fn default() -> (r: Self)
        ensures
            r.known() == Seq::<ToolDefinitionView>::empty(),
            r.scripts() == Map::<Seq<char>, ScriptView>::empty(),
            r.executed() == Seq::<ExecutionView>::empty(),
    {
        Self::new()
    }
}

impl ToolRegistry for MockToolRegistry {
    open spec fn defined(&self) -> Seq<ToolDefinitionView> {
        self.known()
    }

    open spec fn policy_of(&self, name: Seq<char>) -> Option<Policy> {
        if self.scripts().contains_key(name) {
            Some(self.scripts()[name].policy)
        } else {
            None
        }
    }

    open spec fn visibility_of(&self, name: Seq<char>) -> Option<Visibility> {
        if self.scripts().contains_key(name) {
            Some(self.scripts()[name].visibility)
        } else {
            None
        }
    }

    fn names(&self) -> (r: Vec<String>) {
        let mut r: Vec<String> = Vec::new();
        let mut i: usize = 0;
        while i < self.definitions.len()
            invariant
                i <= self.definitions@.len(),
                r@.len() == i,
                forall|k: int| 0 <= k < i ==> (#[trigger] r@[k])@ == self.definitions@[k].name@,
            decreases self.definitions@.len() - i,
        {
            r.push(self.definitions[i].name.clone());
            i += 1;
        }
        r
    }

    fn definitions(&self) -> (r: Vec<ToolDefinition>) {
        clone_definitions(&self.definitions)
    }

    fn policy(&self, name: &str) -> (r: Option<Policy>) {
        match self.find(name) {
            Some(k) => Some(self.tools[k].policy),
            None => None,
        }
    }

    fn visibility(&self, name: &str) -> (r: Option<Visibility>) {
        match self.find(name) {
            Some(k) => Some(self.tools[k].visibility),
            None => None,
        }
    }
}

} // verus!
