use brain::json::Json;
use brain::memory_index::Score;
use brain::testing::embedder::MockEmbedder;
use brain::testing::tool_index::{InMemoryToolIndex, Similarity};
use brain::testing::tool_registry::MockToolRegistry;
use brain::tool::{
    EmptyToolRegistry, Policy, StaticToolRegistry, Tool, ToolDefinition, ToolDefinitionView,
    ToolEntry, ToolOutput, ToolRegistry, Visibility,
};
use brain::tool_index::{hidden_definitions, tool_embedding_text, top_k, DiscoveredTool};
use brain::tool_search::{ToolSearch, NO_MATCH, TOOL_SEARCH_K};

fn json(text: &str) -> Json {
    Json::parse(text).expect("a document")
}

struct EchoTool;

impl Tool for EchoTool {
    fn described(&self) -> ToolDefinitionView {
        unreachable!()
    }

    fn name(&self) -> &str {
        "echo"
    }

    fn description(&self) -> &str {
        "Echoes the input text back."
    }

    fn input_schema(&self) -> Json {
        json(r#"{"type":"object","properties":{"text":{"type":"string"}}}"#)
    }
}

struct VisibleEcho;

impl Tool for VisibleEcho {
    fn described(&self) -> ToolDefinitionView {
        unreachable!()
    }

    fn name(&self) -> &str {
        "visible_echo"
    }

    fn description(&self) -> &str {
        "A visible echo."
    }

    fn input_schema(&self) -> Json {
        json(r#"{ "type": "object" }"#)
    }

    fn visibility(&self) -> Visibility {
        Visibility::Visible
    }
}

fn ok_output() -> Vec<ToolOutput> {
    vec![ToolOutput {
        text: "ok".to_string(),
        is_error: false,
    }]
}

#[test]
fn tool_definition_assembles_metadata() {
    let tool = EchoTool;
    let def = tool.definition();
    assert_eq!(def.name, tool.name());
    assert_eq!(def.description, tool.description());
    assert_eq!(def.input_schema.compact(), tool.input_schema().compact());
}

#[test]
fn default_policy_is_auto() {
    let tool = EchoTool;
    assert_eq!(tool.policy(), Policy::Auto);
}

#[test]
fn default_visibility_is_hidden() {
    let tool = EchoTool;
    assert_eq!(tool.visibility(), Visibility::Hidden);
    assert!(!tool.is_visible());
    assert_eq!(Visibility::default(), Visibility::Hidden);
}

#[test]
fn visible_definitions_filters_by_visibility() {
    let registry = StaticToolRegistry::new(vec![
        ToolEntry::of(&EchoTool),
        ToolEntry::of(&VisibleEcho),
    ]);
    let visible = registry.visible_definitions();
    assert_eq!(visible.len(), 1);
    assert_eq!(visible[0].name, "visible_echo");
}

#[test]
fn static_registry_looks_tools_up_by_name() {
    let registry = StaticToolRegistry::new(vec![
        ToolEntry::of(&EchoTool),
        ToolEntry::of(&VisibleEcho),
    ]);
    assert_eq!(registry.names(), vec!["echo", "visible_echo"]);
    assert_eq!(registry.definitions().len(), 2);
    assert_eq!(registry.policy("echo"), Some(Policy::Auto));
    assert_eq!(registry.policy("missing"), None);
    assert_eq!(registry.visibility("echo"), Some(Visibility::Hidden));
    assert_eq!(registry.visibility("missing"), None);
    assert_eq!(registry.position("visible_echo"), Some(1));
    assert_eq!(registry.position("missing"), None);
    assert_eq!(
        StaticToolRegistry::missing("nope"),
        "no tool registered: nope"
    );
}

#[test]
fn empty_registry_has_no_tools() {
    let registry = EmptyToolRegistry;
    assert!(registry.names().is_empty());
    assert!(registry.definitions().is_empty());
    assert!(registry.visible_definitions().is_empty());
    assert_eq!(registry.policy("echo"), None);
    assert_eq!(registry.visibility("echo"), None);
    assert_eq!(
        EmptyToolRegistry::missing("echo"),
        "no tools registered; cannot execute: echo"
    );
}

#[test]
fn hidden_tool_does_not_grow_the_default_list() {
    let shown = |entries| -> Vec<String> {
        StaticToolRegistry::new(entries)
            .visible_definitions()
            .into_iter()
            .map(|d| d.name)
            .collect()
    };
    let before = shown(vec![ToolEntry::of(&VisibleEcho)]);
    let after = shown(vec![ToolEntry::of(&VisibleEcho), ToolEntry::of(&EchoTool)]);
    assert_eq!(before, vec!["visible_echo"]);
    assert_eq!(after, before);
}

fn hidden_tool(name: &str, description: &str) -> MockToolRegistry {
    MockToolRegistry::new().register_hidden(name, description, Policy::Auto, ok_output())
}

fn visible_tool(name: &str, description: &str) -> MockToolRegistry {
    MockToolRegistry::new().register(name, description, Policy::Auto, ok_output())
}

fn index_all(index: &mut InMemoryToolIndex, registry: &MockToolRegistry, embedder: &mut MockEmbedder) {
    let texts = InMemoryToolIndex::texts(registry);
    let embeddings = texts.iter().map(|t| embedder.embed(t)).collect();
    index.index(registry, embeddings);
}

/// Zero vectors are not similar to anything.
fn alike(index: &InMemoryToolIndex) -> Vec<Similarity> {
    index
        .names
        .iter()
        .map(|_| Similarity {
            score: 0,
            shown: "0.000".to_string(),
        })
        .collect()
}

#[test]
fn index_only_includes_hidden_tools() {
    let registry = MockToolRegistry::new()
        .register_hidden("hidden_one", "A hidden tool.", Policy::Auto, ok_output())
        .register("visible_one", "A visible tool.", Policy::Auto, ok_output());

    let mut embedder = MockEmbedder::new(4);
    let mut index = InMemoryToolIndex::new();
    index_all(&mut index, &registry, &mut embedder);

    assert_eq!(embedder.calls().len(), 1);
    assert!(embedder.calls()[0].contains("hidden_one"));

    let results = index.search(&alike(&index), 10);
    assert_eq!(results.len(), 1);
    assert_eq!(results[0].name, "hidden_one");
}

#[test]
fn index_skips_registry_with_no_hidden_tools() {
    let registry = visible_tool("only_visible", "The only tool.");
    let mut embedder = MockEmbedder::new(4);
    let mut index = InMemoryToolIndex::new();
    index_all(&mut index, &registry, &mut embedder);

    assert!(embedder.calls().is_empty());
    let results = index.search(&alike(&index), 10);
    assert!(results.is_empty());
}

#[test]
fn search_returns_top_k_ordered_by_descending_score() {
    let registry = MockToolRegistry::new()
        .register_hidden("a", "alpha", Policy::Auto, vec![])
        .register_hidden("b", "beta", Policy::Auto, vec![])
        .register_hidden("c", "gamma", Policy::Auto, vec![]);
    let mut embedder = MockEmbedder::new(2);
    let mut index = InMemoryToolIndex::new();
    index_all(&mut index, &registry, &mut embedder);

    let results = index.search(&alike(&index), 2);
    assert_eq!(results.len(), 2);
    assert_eq!(results[0].name, "a");
    assert_eq!(results[1].name, "b");
}

#[test]
fn search_with_zero_k_returns_empty() {
    let registry = hidden_tool("solo", "the only hidden tool");
    let mut embedder = MockEmbedder::new(2);
    let mut index = InMemoryToolIndex::new();
    index_all(&mut index, &registry, &mut embedder);

    let results = index.search(&alike(&index), 0);
    assert!(results.is_empty());
}

#[test]
fn search_before_index_returns_empty() {
    let index = InMemoryToolIndex::new();
    let results = index.search(&vec![], 5);
    assert!(results.is_empty());
}

#[test]
fn reindex_replaces_previous_entries() {
    let first = hidden_tool("old", "the old hidden tool");
    let mut embedder = MockEmbedder::new(2);
    let mut index = InMemoryToolIndex::new();
    index_all(&mut index, &first, &mut embedder);

    let second = hidden_tool("new", "the new hidden tool");
    index_all(&mut index, &second, &mut embedder);

    let results = index.search(&alike(&index), 10);
    assert_eq!(results.len(), 1);
    assert_eq!(results[0].name, "new");
}

#[test]
fn index_embeds_name_and_description_together() {
    let registry = hidden_tool("desktop_click", "Click an element via AX press.");
    let mut embedder = MockEmbedder::new(2);
    let mut index = InMemoryToolIndex::new();
    index_all(&mut index, &registry, &mut embedder);

    let embedded = embedder.calls();
    assert_eq!(embedded.len(), 1);
    assert!(embedded[0].contains("desktop_click"));
    assert!(embedded[0].contains("Click an element via AX press."));
}

#[test]
fn tool_embedding_text_is_name_then_description() {
    let definition = ToolDefinition {
        name: "desktop_click".to_string(),
        description: "Click an element via accessibility press.".to_string(),
        input_schema: json(r#"{ "type": "object" }"#),
    };
    assert_eq!(
        tool_embedding_text(&definition),
        "desktop_click\nClick an element via accessibility press."
    );
}

fn found(name: &str, score: Score) -> DiscoveredTool {
    DiscoveredTool {
        name: name.to_string(),
        score,
        shown: format!("{score}.000"),
    }
}

#[test]
fn top_is_sorted_and_keeps_the_order_of_equals() {
    let items = vec![
        found("low", 1),
        found("high", 9),
        found("first", 5),
        found("second", 5),
    ];
    let names: Vec<String> = top_k(&items, 3).into_iter().map(|t| t.name).collect();
    assert_eq!(names, vec!["high", "first", "second"]);
    assert_eq!(top_k(&items, 10).len(), 4);
}

fn hidden_echo_registry() -> MockToolRegistry {
    MockToolRegistry::new().register_hidden("echo", "Echo text back", Policy::Auto, ok_output())
}

/// Runs a search tool on its input: query, embedding, search, rendering.
fn execute(
    tool: &ToolSearch,
    embedder: &mut MockEmbedder,
    index: &InMemoryToolIndex,
    input: &str,
) -> Result<ToolOutput, String> {
    let query = tool.query(&json(input)).map_err(|e| e.message)?;
    embedder.embed(&query);
    Ok(tool.render(&index.search(&alike(index), TOOL_SEARCH_K)))
}

#[test]
fn execute_returns_text_describing_discovered_tools() {
    let mut embedder = MockEmbedder::new(2);
    let mut index = InMemoryToolIndex::new();
    let registry = hidden_echo_registry();
    index_all(&mut index, &registry, &mut embedder);

    let tool = ToolSearch::new(hidden_definitions(&registry));
    let result = execute(
        &tool,
        &mut embedder,
        &index,
        r#"{ "query": "repeat what I say" }"#,
    )
    .unwrap();

    assert!(!result.is_error);
    assert!(result.text.contains("echo"));
    assert!(result.text.contains("Echo text back"));
    assert!(result.text.contains("schema"));
    assert_eq!(embedder.calls().last().unwrap(), "repeat what I say");
}

#[test]
fn execute_returns_no_match_when_index_is_empty() {
    let mut embedder = MockEmbedder::new(2);
    let index = InMemoryToolIndex::new();

    let tool = ToolSearch::new(Vec::new());
    let result = execute(&tool, &mut embedder, &index, r#"{ "query": "anything" }"#).unwrap();

    assert!(!result.is_error);
    assert_eq!(result.text, "No matching tools found.");
    assert_eq!(NO_MATCH, "No matching tools found.");
}

#[test]
fn execute_errors_when_query_is_missing() {
    let mut embedder = MockEmbedder::new(2);
    let index = InMemoryToolIndex::new();

    let tool = ToolSearch::new(Vec::new());
    let err = execute(&tool, &mut embedder, &index, "{}").unwrap_err();

    assert!(err.contains("query"));
    assert!(execute(&tool, &mut embedder, &index, r#"{ "query": 7 }"#).is_err());
}

#[test]
fn execute_returns_no_match_when_discovered_name_not_in_snapshot() {
    let mut embedder = MockEmbedder::new(2);
    let mut index = InMemoryToolIndex::new();
    let registry = hidden_echo_registry();
    index_all(&mut index, &registry, &mut embedder);

    let tool = ToolSearch::new(Vec::new());
    let result = execute(&tool, &mut embedder, &index, r#"{ "query": "echo" }"#).unwrap();

    assert!(!result.is_error);
    assert_eq!(result.text, "No matching tools found.");
}

#[test]
fn definition_is_honest_about_schema() {
    let tool = ToolSearch::new(Vec::new());

    let def = tool.definition();
    assert_eq!(def.name, "tool_search");
    assert!(def.description.contains("deferred tool catalog"));
    let schema: serde_json::Value = serde_json::from_str(def.input_schema.source()).unwrap();
    let expected: serde_json::Value = serde_json::from_str(
        r#"{
            "type": "object",
            "properties": {
                "query": {
                    "type": "string",
                    "description": "A natural-language description of the capability you need."
                }
            },
            "required": ["query"]
        }"#,
    )
    .unwrap();
    assert_eq!(schema, expected);
}

#[test]
fn is_visible_and_auto() {
    let tool = ToolSearch::new(Vec::new());

    assert_eq!(tool.visibility(), Visibility::Visible);
    assert_eq!(tool.policy(), Policy::Auto);
    assert!(tool.is_visible());
}

#[test]
fn execute_includes_score_in_output() {
    let mut embedder = MockEmbedder::new(2);
    let mut index = InMemoryToolIndex::new();
    let registry = hidden_echo_registry();
    index_all(&mut index, &registry, &mut embedder);

    let tool = ToolSearch::new(hidden_definitions(&registry));
    let result = execute(&tool, &mut embedder, &index, r#"{ "query": "echo" }"#).unwrap();

    assert!(result.text.contains("score:"));
    assert!(result.text.contains("0.000"));
}

#[test]
fn execute_resolves_multiple_tools() {
    let mut embedder = MockEmbedder::new(2);
    let mut index = InMemoryToolIndex::new();
    let registry = MockToolRegistry::new()
        .register_hidden("echo", "Echo text back", Policy::Auto, ok_output())
        .register_hidden("reverse", "Reverse text", Policy::Auto, ok_output());
    index_all(&mut index, &registry, &mut embedder);

    let tool = ToolSearch::new(hidden_definitions(&registry));
    let result = execute(&tool, &mut embedder, &index, r#"{ "query": "text" }"#).unwrap();

    assert!(result.text.contains("echo"));
    assert!(result.text.contains("reverse"));
}

#[test]
fn execute_truncates_to_k_results() {
    let mut embedder = MockEmbedder::new(2);
    let mut index = InMemoryToolIndex::new();
    let registry = MockToolRegistry::new()
        .register_hidden("a", "alpha", Policy::Auto, vec![])
        .register_hidden("b", "beta", Policy::Auto, vec![])
        .register_hidden("c", "gamma", Policy::Auto, vec![])
        .register_hidden("d", "delta", Policy::Auto, vec![])
        .register_hidden("e", "epsilon", Policy::Auto, vec![])
        .register_hidden("f", "zeta", Policy::Auto, vec![]);
    index_all(&mut index, &registry, &mut embedder);

    let tool = ToolSearch::new(hidden_definitions(&registry));
    let result = execute(&tool, &mut embedder, &index, r#"{ "query": "greek" }"#).unwrap();

    let count = result.text.matches("- ").count();
    assert!(count <= TOOL_SEARCH_K, "got {count} results");
    assert_eq!(count, 5);
}

#[test]
fn tool_search_k_is_five() {
    assert_eq!(TOOL_SEARCH_K, 5);
}

#[test]
fn tool_definition_has_expected_shape() {
    let tool = ToolSearch::new(Vec::new());

    let def: ToolDefinition = tool.definition();
    assert!(!def.name.is_empty());
    assert!(!def.description.is_empty());
    let schema: serde_json::Value = serde_json::from_str(def.input_schema.source()).unwrap();
    assert!(schema.is_object());
}

#[test]
fn mock_registry_plays_its_outputs_in_order() {
    let mut registry = MockToolRegistry::new().register(
        "echo",
        "Echoes",
        Policy::Confirm,
        vec![
            ToolOutput {
                text: "one".to_string(),
                is_error: false,
            },
            ToolOutput {
                text: "two".to_string(),
                is_error: true,
            },
        ],
    );
    assert_eq!(registry.policy("echo"), Some(Policy::Confirm));
    assert_eq!(registry.visibility("echo"), Some(Visibility::Visible));
    assert_eq!(registry.execute("echo", Json::null()).unwrap().text, "one");
    assert_eq!(registry.execute("echo", Json::null()).unwrap().text, "two");
    assert!(registry.execute("missing", Json::null()).is_err());
    assert_eq!(registry.executions()[0].name, "echo");
}
