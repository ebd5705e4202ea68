use brain::exa::web_search::{read_reply, render_results, ExaWebSearch, SearchResult};
use brain::exa::ExaConfig;
use brain::json::Json;
use brain::tool::{Policy, Tool};

fn tool() -> ExaWebSearch {
    ExaWebSearch::new(ExaConfig::new("test-key"))
}

#[test]
fn name_is_web_search() {
    assert_eq!(tool().name(), "web_search");
}

#[test]
fn policy_is_auto() {
    assert_eq!(tool().policy(), Policy::Auto);
}

#[test]
fn input_schema_requires_query_string() {
    let schema: serde_json::Value = serde_json::from_str(tool().input_schema().source()).unwrap();
    assert_eq!(schema["type"], "object");
    assert_eq!(schema["properties"]["query"]["type"], "string");
    assert_eq!(schema["required"][0], "query");
}

#[test]
fn web_search_definition_assembles_metadata() {
    let t = tool();
    let def = t.definition();
    assert_eq!(def.name, t.name());
    assert_eq!(def.description, t.description());
    assert_eq!(def.input_schema.compact(), t.input_schema().compact());
}

#[test]
fn endpoint_strips_trailing_slash() {
    let t = ExaWebSearch::new(ExaConfig::new("k").with_base_url("https://api.exa.ai/"));
    assert_eq!(t.endpoint(), "https://api.exa.ai/search");
}

#[test]
fn endpoint_defaults_to_the_public_one() {
    assert_eq!(tool().endpoint(), "https://api.exa.ai/search");
}

#[test]
fn render_results_emits_title_url_and_snippet_per_result() {
    let results = vec![
        SearchResult {
            title: "Async traits in Rust".to_string(),
            url: "https://example.com/a".to_string(),
            highlights: Some(vec!["A short highlight.".to_string()]),
            summary: Some("A summary.".to_string()),
        },
        SearchResult {
            title: "Tokio docs".to_string(),
            url: "https://example.com/b".to_string(),
            highlights: None,
            summary: Some("Tokio summary.".to_string()),
        },
    ];

    let rendered = render_results(&results);

    assert!(rendered.contains("1. Async traits in Rust"));
    assert!(rendered.contains("https://example.com/a"));
    assert!(rendered.contains("A short highlight."));
    assert!(rendered.contains("2. Tokio docs"));
    assert!(rendered.contains("Tokio summary."));
}

#[test]
fn render_results_falls_back_to_summary_when_highlights_absent() {
    let results = vec![SearchResult {
        title: "Only summary".to_string(),
        url: "https://example.com/c".to_string(),
        highlights: None,
        summary: Some("Just a summary.".to_string()),
    }];

    let rendered = render_results(&results);
    assert!(rendered.contains("Just a summary."));
}

#[test]
fn render_results_handles_empty_list() {
    assert_eq!(render_results(&vec![]), "No results.");
}

#[test]
fn render_results_handles_missing_snippet() {
    let results = vec![SearchResult {
        title: "Bare result".to_string(),
        url: "https://example.com/d".to_string(),
        highlights: None,
        summary: None,
    }];

    let rendered = render_results(&results);
    assert!(rendered.contains("1. Bare result"));
    assert!(rendered.contains("https://example.com/d"));
}

#[test]
fn request_asks_for_highlights_and_summaries() {
    let input = Json::parse(r#"{"query":"rust async traits"}"#).unwrap();
    let request = tool().request(&input).unwrap();
    assert_eq!(request.query, "rust async traits");
    assert!(request.contents.highlights);
    assert!(request.contents.summary);
}

#[test]
fn request_needs_a_query() {
    let error = tool().request(&Json::parse("{}").unwrap()).unwrap_err();
    assert!(error.message.contains("query"));
    assert!(tool().request(&Json::null()).is_err());
}

#[test]
fn reply_is_rendered_or_refused() {
    let found = vec![SearchResult {
        title: "T".to_string(),
        url: "u".to_string(),
        highlights: None,
        summary: None,
    }];
    let output = read_reply(true, "200 OK", "", Some(found)).unwrap();
    assert!(!output.is_error);
    assert!(output.text.contains("1. T"));

    let refused = read_reply(false, "401 Unauthorized", "bad key", None).unwrap();
    assert!(refused.is_error);
    assert_eq!(
        refused.text,
        "Exa search failed (HTTP 401 Unauthorized): bad key"
    );
    assert!(read_reply(true, "200 OK", "", None).is_err());
}
