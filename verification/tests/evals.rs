use brain::evals::dataset::{parse_stem, Dataset};
use brain::evals::drift::{
    grade, score_case, Boundary, CaseOutcome, Confusion, DetectedShift, DriftCase, DriftExpectation,
    DriftMetrics, Ratio, Turn, TurnRole,
};
use brain::evals::report::{Report, RunMetadata};
use brain::evals::tool_search::{
    score_case as score_tool_case, InvocationOutcome, ObservedFirstCall, ToolSearchCase,
    ToolSearchExpectation, ToolSearchMetrics,
};
use brain::models::message::{Content, Message, MessageId, Role};
use brain::topic_detector::TopicShift;

fn value(ratio: Ratio) -> f64 {
    ratio.numerator as f64 / ratio.denominator as f64
}

fn probe_id(line: String) -> Option<String> {
    let parsed: serde_json::Value = serde_json::from_str(&line).ok()?;
    Some(parsed.get("id")?.as_str()?.to_string())
}

#[test]
fn from_jsonl_skips_blank_and_comment_lines() {
    let contents = "# header comment\n\n{\"id\":\"a\"}\n{\"id\":\"b\"}\n";
    let dataset = Dataset::from_jsonl("probe", "v1", contents, probe_id).unwrap();

    assert_eq!(dataset.action, "probe");
    assert_eq!(dataset.version, "v1");
    assert_eq!(dataset.len(), 2);
    assert!(!dataset.is_empty());
    assert_eq!(dataset.cases[0], "a");
    assert_eq!(dataset.cases[1], "b");
}

#[test]
fn from_jsonl_reports_the_offending_line() {
    let contents = "{\"id\":\"a\"}\nnot json\n";
    let error = Dataset::from_jsonl("probe", "v1", contents, probe_id).unwrap_err();
    assert!(error.message.contains("line 2"));
    assert_eq!(error.message, "failed to parse case on line 2");
}

#[test]
fn from_jsonl_counts_skipped_lines() {
    let contents = "\r\n  # indented comment\r\n\t\r\n  oops  \r\n";
    let error = Dataset::from_jsonl("probe", "v1", contents, probe_id).unwrap_err();
    assert_eq!(error.message, "failed to parse case on line 4");
}

#[test]
fn from_jsonl_of_nothing_is_empty() {
    let dataset = Dataset::from_jsonl("probe", "v1", "", probe_id).unwrap();
    assert!(dataset.is_empty());
    assert_eq!(dataset.len(), 0);
}

#[test]
fn from_jsonl_hands_over_trimmed_lines() {
    let lines = Dataset::from_jsonl("probe", "v1", "  one \n\n two", Some).unwrap();
    assert_eq!(lines.cases, vec!["one".to_string(), "two".to_string()]);
}

#[test]
fn parse_stem_extracts_action_and_version() {
    let parsed = parse_stem("datasets/detect_topic_shift.v1.jsonl");
    assert_eq!(
        parsed,
        Some(("detect_topic_shift".to_string(), "v1".to_string()))
    );
}

#[test]
fn parse_stem_rejects_unversioned_names() {
    assert!(parse_stem("detect_topic_shift.jsonl").is_none());
}

#[test]
fn parse_stem_reads_only_the_file_name() {
    assert!(parse_stem("a.v1.jsonl/..").is_none());
    assert!(parse_stem("").is_none());
    assert!(parse_stem("/").is_none());
    assert!(parse_stem(".v1.jsonl").is_none());
    assert!(parse_stem("a..jsonl").is_none());
    assert!(parse_stem("a.v1.json").is_none());
    let expected = Some(("a.b".to_string(), "v2".to_string()));
    assert_eq!(parse_stem("dir.x/a.b.v2.jsonl/./"), expected);
    assert_eq!(parse_stem("//dir//a.b.v2.jsonl"), expected);
}

fn case(id: &str, expect: DriftExpectation) -> DriftCase {
    DriftCase {
        id: id.to_string(),
        turns: vec![
            Turn {
                role: TurnRole::User,
                text: "first".to_string(),
            },
            Turn {
                role: TurnRole::Assistant,
                text: "second".to_string(),
            },
            Turn {
                role: TurnRole::User,
                text: "third".to_string(),
            },
        ],
        expect,
        notes: None,
    }
}

fn shift_at(index: usize) -> DetectedShift {
    DetectedShift {
        at_index: index,
        topic: "topic".to_string(),
    }
}

#[test]
fn score_case_classifies_the_four_quadrants() {
    let shift_expect = DriftExpectation {
        shifted: true,
        at: Some(2),
        topic: None,
    };
    let no_shift_expect = DriftExpectation {
        shifted: false,
        at: None,
        topic: None,
    };

    let tp = score_case(&case("tp", shift_expect.clone()), Some(&shift_at(2)));
    let fn_ = score_case(&case("fn", shift_expect), None);
    let fp = score_case(&case("fp", no_shift_expect.clone()), Some(&shift_at(1)));
    let tn = score_case(&case("tn", no_shift_expect), None);

    assert_eq!(tp.confusion, Confusion::TruePositive);
    assert_eq!(fn_.confusion, Confusion::FalseNegative);
    assert_eq!(fp.confusion, Confusion::FalsePositive);
    assert_eq!(tn.confusion, Confusion::TrueNegative);

    let boundary = tp.boundary.expect("true positive carries a boundary");
    assert!(boundary.is_exact());
}

#[test]
fn score_case_records_off_by_one_boundary() {
    let expect = DriftExpectation {
        shifted: true,
        at: Some(2),
        topic: None,
    };
    let outcome = score_case(&case("c", expect), Some(&shift_at(1)));
    let boundary = outcome.boundary.unwrap();

    assert!(!boundary.is_exact());
    assert!(boundary.within(1));
    assert_eq!(boundary.distance(), 1);
}

#[test]
fn score_case_keeps_the_topics() {
    let expect = DriftExpectation {
        shifted: true,
        at: None,
        topic: Some("taxes".to_string()),
    };
    let outcome = score_case(&case("c", expect), Some(&shift_at(1)));
    assert_eq!(outcome.case_id, "c");
    assert!(outcome.boundary.is_none());
    assert_eq!(outcome.expected_topic.as_deref(), Some("taxes"));
    assert_eq!(outcome.predicted_topic.as_deref(), Some("topic"));
}

#[test]
fn boundary_distance_counts_both_ways() {
    let late = Boundary {
        expected: 2,
        predicted: 7,
    };
    let early = Boundary {
        expected: 7,
        predicted: 2,
    };
    assert_eq!(late.distance(), 5);
    assert_eq!(early.distance(), 5);
    assert!(late.within(5));
    assert!(!early.within(4));
}

fn outcome(id: &str, confusion: Confusion, boundary: Option<Boundary>) -> CaseOutcome {
    CaseOutcome {
        case_id: id.into(),
        confusion,
        boundary,
        expected_topic: None,
        predicted_topic: None,
    }
}

fn five_outcomes() -> Vec<CaseOutcome> {
    vec![
        outcome(
            "a",
            Confusion::TruePositive,
            Some(Boundary {
                expected: 2,
                predicted: 2,
            }),
        ),
        outcome(
            "b",
            Confusion::TruePositive,
            Some(Boundary {
                expected: 3,
                predicted: 4,
            }),
        ),
        outcome("c", Confusion::FalsePositive, None),
        outcome("d", Confusion::FalseNegative, None),
        outcome("e", Confusion::TrueNegative, None),
    ]
}

#[test]
fn metrics_compute_precision_recall_and_boundary_rates() {
    let metrics = DriftMetrics::from_outcomes(&five_outcomes());

    assert_eq!(metrics.total, 5);
    assert_eq!(metrics.true_positives, 2);
    assert_eq!(metrics.false_positives, 1);
    assert_eq!(metrics.false_negatives, 1);
    assert_eq!(metrics.true_negatives, 1);

    // precision = 2 / (2 + 1), recall = 2 / (2 + 1)
    assert!((value(metrics.precision) - 2.0 / 3.0).abs() < 1e-9);
    assert!((value(metrics.recall) - 2.0 / 3.0).abs() < 1e-9);
    assert!((value(metrics.f1) - 2.0 / 3.0).abs() < 1e-9);
    assert!((value(metrics.accuracy) - 3.0 / 5.0).abs() < 1e-9);

    assert_eq!(metrics.boundary_total, 2);
    assert_eq!(metrics.boundary_exact, 1);
    assert_eq!(metrics.boundary_within_one, 2);
    assert!((value(metrics.boundary_exact_rate) - 0.5).abs() < 1e-9);
    assert!((value(metrics.mean_boundary_distance) - 0.5).abs() < 1e-9);
}

#[test]
fn empty_run_does_not_divide_by_zero() {
    let metrics = DriftMetrics::from_outcomes(&vec![]);
    assert_eq!(metrics.total, 0);
    assert_eq!(value(metrics.precision), 1.0);
    assert_eq!(value(metrics.recall), 1.0);
    assert_eq!(value(metrics.accuracy), 1.0);
    assert_eq!(value(metrics.boundary_exact_rate), 0.0);
}

#[test]
fn quadrants_add_up_and_exact_is_within_one() {
    let metrics = DriftMetrics::from_outcomes(&five_outcomes());
    assert_eq!(
        metrics.true_positives
            + metrics.false_positives
            + metrics.true_negatives
            + metrics.false_negatives,
        metrics.total
    );
    assert!(metrics.boundary_exact <= metrics.boundary_within_one);
    assert!(metrics.boundary_within_one <= metrics.boundary_total);
}

#[test]
fn f1_is_the_harmonic_mean_of_uneven_rates() {
    let outcomes = vec![
        outcome("a", Confusion::TruePositive, None),
        outcome("b", Confusion::FalsePositive, None),
        outcome("c", Confusion::FalsePositive, None),
        outcome("d", Confusion::FalsePositive, None),
        outcome("e", Confusion::FalseNegative, None),
    ];
    let metrics = DriftMetrics::from_outcomes(&outcomes);
    let (p, r) = (value(metrics.precision), value(metrics.recall));
    assert_eq!((p, r), (0.25, 0.5));
    assert!((value(metrics.f1) - 2.0 * p * r / (p + r)).abs() < 1e-9);

    let missed = vec![outcome("a", Confusion::FalseNegative, None)];
    let metrics = DriftMetrics::from_outcomes(&missed);
    assert_eq!(value(metrics.precision), 1.0);
    assert_eq!(value(metrics.recall), 0.0);
    assert_eq!(value(metrics.f1), 0.0);
}

fn marker_shift(messages: &[Message]) -> Option<TopicShift> {
    let last = messages.last()?;
    let Content::Text { text } = &last.content[0] else {
        return None;
    };
    if text.contains("NEW") {
        Some(TopicShift {
            at_message_id: last.id,
            new_topic: "new topic".to_string(),
        })
    } else {
        None
    }
}

fn user(text: &str) -> Turn {
    Turn {
        role: TurnRole::User,
        text: text.into(),
    }
}

#[test]
fn run_drift_maps_message_id_back_to_turn_index() {
    let dataset = Dataset {
        action: "detect_topic_shift".to_string(),
        version: "test".to_string(),
        cases: vec![
            DriftCase {
                id: "shifts".into(),
                turns: vec![user("talk about cats"), user("NEW: now taxes")],
                expect: DriftExpectation {
                    shifted: true,
                    at: Some(1),
                    topic: None,
                },
                notes: None,
            },
            DriftCase {
                id: "stays".into(),
                turns: vec![user("talk about cats"), user("more about cats")],
                expect: DriftExpectation {
                    shifted: false,
                    at: None,
                    topic: None,
                },
                notes: None,
            },
        ],
    };

    let mut outcomes = Vec::new();
    for case in &dataset.cases {
        let messages = case.messages();
        let shift = marker_shift(&messages);
        outcomes.push(grade(case, &messages, shift));
    }
    let metrics = DriftMetrics::from_outcomes(&outcomes);

    assert_eq!(metrics.true_positives, 1);
    assert_eq!(metrics.true_negatives, 1);
    assert_eq!(metrics.boundary_exact, 1);
    assert!(outcomes[0].boundary.unwrap().is_exact());
    assert_eq!(outcomes[0].predicted_topic.as_deref(), Some("new topic"));
}

#[test]
fn shift_at_an_unknown_message_is_no_shift() {
    let expect = DriftExpectation {
        shifted: true,
        at: Some(1),
        topic: None,
    };
    let case = case("c", expect);
    let messages = case.messages();
    let outcome = grade(
        &case,
        &messages,
        Some(TopicShift {
            at_message_id: MessageId::new(),
            new_topic: "elsewhere".to_string(),
        }),
    );
    assert_eq!(outcome.confusion, Confusion::FalseNegative);
    assert!(outcome.boundary.is_none());
    assert!(outcome.predicted_topic.is_none());
}

#[test]
fn case_messages_follow_the_turns() {
    let expect = DriftExpectation {
        shifted: false,
        at: None,
        topic: None,
    };
    let mut case = case("c", expect);
    case.turns.push(Turn {
        role: TurnRole::System,
        text: "fourth".to_string(),
    });
    let messages = case.messages();
    let roles: Vec<Role> = messages.iter().map(|m| m.role).collect();
    assert_eq!(
        roles,
        vec![Role::User, Role::Assistant, Role::User, Role::System]
    );
    assert!(matches!(&messages[1].content[..], [Content::Text { text }] if text == "second"));
    assert_ne!(messages[0].id, messages[1].id);
}

fn tool_case(id: &str, msg: &str, expected: &str) -> ToolSearchCase {
    ToolSearchCase {
        id: id.to_string(),
        user_message: msg.to_string(),
        expect: ToolSearchExpectation {
            first_tool_call: expected.to_string(),
        },
    }
}

#[test]
fn score_case_match_when_observed_equals_expected() {
    let c = tool_case("a", "anything", "tool_search");
    let observed = ObservedFirstCall {
        tool_name: Some("tool_search".to_string()),
    };
    let outcome = score_tool_case(&c, &observed);
    assert_eq!(outcome.outcome, InvocationOutcome::Match);
    assert_eq!(outcome.observed.as_deref(), Some("tool_search"));
}

#[test]
fn score_case_mismatch_when_observed_differs() {
    let c = tool_case("a", "anything", "tool_search");
    let observed = ObservedFirstCall {
        tool_name: Some("web_search".to_string()),
    };
    let outcome = score_tool_case(&c, &observed);
    assert_eq!(outcome.outcome, InvocationOutcome::Mismatch);
    assert_eq!(outcome.observed.as_deref(), Some("web_search"));
}

#[test]
fn score_case_no_call_when_observed_is_none() {
    let c = tool_case("a", "anything", "tool_search");
    let observed = ObservedFirstCall { tool_name: None };
    let outcome = score_tool_case(&c, &observed);
    assert_eq!(outcome.outcome, InvocationOutcome::NoCall);
    assert!(outcome.observed.is_none());
}

#[test]
fn metrics_count_each_quadrant() {
    let outcomes = vec![
        score_tool_case(
            &tool_case("a", "m", "tool_search"),
            &ObservedFirstCall {
                tool_name: Some("tool_search".to_string()),
            },
        ),
        score_tool_case(
            &tool_case("b", "m", "tool_search"),
            &ObservedFirstCall {
                tool_name: Some("web_search".to_string()),
            },
        ),
        score_tool_case(
            &tool_case("c", "m", "tool_search"),
            &ObservedFirstCall { tool_name: None },
        ),
    ];
    let metrics = ToolSearchMetrics::from_outcomes(&outcomes);
    assert_eq!(metrics.total, 3);
    assert_eq!(metrics.matches, 1);
    assert_eq!(metrics.mismatches, 1);
    assert_eq!(metrics.no_calls, 1);
    assert!((value(metrics.match_rate) - 1.0 / 3.0).abs() < 1e-9);
}

#[test]
fn metrics_empty_run_is_zero_not_vacuous_perfect() {
    let metrics = ToolSearchMetrics::from_outcomes(&vec![]);
    assert_eq!(metrics.total, 0);
    assert_eq!(value(metrics.match_rate), 0.0);
}

#[test]
fn report_carries_its_provenance() {
    let metadata = RunMetadata::new("detect_topic_shift", "v1", "model", "hash");
    let report = Report::new(metadata, 7);
    assert_eq!(report.metadata.action, "detect_topic_shift");
    assert_eq!(report.metadata.dataset_version, "v1");
    assert_eq!(report.metadata.model, "model");
    assert_eq!(report.metadata.prompt_hash, "hash");
    assert_eq!(report.metrics, 7);
}
