use brain::cli::{
    build_text, count_wrapped_lines, first_row, is_shallow, screen_lines, scroll_row, Action, App,
    AppEvent, Config, Key, Piece, Sending, Settings, MAX_LIST_DEPTH,
};
use brain::json::Json;
use brain::models::conversation::{Conversation, ConversationId};
use brain::models::message::{Content, Message, MessageId, Role};
use brain::models::summary::Summary;
use brain::time::Timestamp;

fn settings(key: Option<&str>) -> Settings {
    Settings {
        mistral_api_key: key.map(str::to_string),
        mistral_model: None,
        mistral_embed_model: None,
        surrealdb_url: None,
        surrealdb_namespace: None,
        surrealdb_database: None,
        surrealdb_user: None,
        surrealdb_password: None,
        exa_api_key: None,
    }
}

#[test]
fn config_fills_in_defaults() {
    let config = Config::from_settings(settings(Some("key"))).unwrap();
    assert_eq!(config.mistral_api_key, "key");
    assert_eq!(config.mistral_model, "mistral-small-latest");
    assert_eq!(config.mistral_embed_model, "mistral-embed");
    assert_eq!(config.surrealdb_url, "ws://127.0.0.1:8000");
    assert_eq!(config.surrealdb_namespace, "brain");
    assert_eq!(config.surrealdb_database, "brain");
    assert_eq!(config.surrealdb_user, "root");
    assert_eq!(config.surrealdb_password, "root");
    assert!(config.exa_api_key.is_none());
}

#[test]
fn config_keeps_what_is_set() {
    let mut given = settings(Some("key"));
    given.mistral_model = Some("large".to_string());
    given.exa_api_key = Some("exa".to_string());
    let config = Config::from_settings(given).unwrap();
    assert_eq!(config.mistral_model, "large");
    assert_eq!(config.exa_api_key.as_deref(), Some("exa"));
}

#[test]
fn config_needs_a_key() {
    let failure = Config::from_settings(settings(None)).unwrap_err();
    assert_eq!(failure.message, "MISTRAL_API_KEY must be set");
}

fn type_text(app: &mut App, text: &str) {
    for c in text.chars() {
        assert!(matches!(
            app.press(Key::Char { c, control: false }),
            Action::Stay
        ));
    }
}

#[test]
fn typed_text_is_sent_trimmed() {
    let mut app = App::new();
    assert_eq!(app.status, "Ready");
    type_text(&mut app, "  h\u{e9}llo!");
    app.press(Key::Backspace);
    assert_eq!(app.input, "  h\u{e9}llo");
    assert!(matches!(app.press(Key::Enter), Action::Send(text) if text == "h\u{e9}llo"));
    assert_eq!(app.input, "");
}

#[test]
fn blank_text_is_not_sent() {
    let mut app = App::new();
    type_text(&mut app, "  ");
    assert!(matches!(app.press(Key::Enter), Action::Stay));
    assert_eq!(app.input, "");
    app.press(Key::Backspace);
    assert_eq!(app.input, "");
}

#[test]
fn only_escape_and_control_c_quit() {
    let mut app = App::new();
    let control = |c| Key::Char { c, control: true };
    assert!(matches!(app.press(Key::Esc), Action::Quit));
    assert!(matches!(app.press(control('c')), Action::Quit));
    assert_eq!(app.input, "");
    assert!(matches!(app.press(control('d')), Action::Stay));
    assert_eq!(app.input, "d");
    assert!(matches!(app.press(Key::Other), Action::Stay));
}

#[test]
fn scrolling_stays_in_range() {
    let mut app = App::new();
    app.press(Key::Up);
    assert_eq!(app.scroll, 0);
    app.press(Key::PageDown);
    app.press(Key::Down);
    assert_eq!(app.scroll, 11);
    app.press(Key::PageUp);
    assert_eq!(app.scroll, 1);
    app.press(Key::End);
    assert_eq!(app.scroll, u16::MAX);
    app.press(Key::PageDown);
    assert_eq!(app.scroll, u16::MAX);
}

#[test]
fn answer_is_shown_while_it_comes_in() {
    let mut app = App::new();
    let (mut sending, event) = Sending::start("hello");
    app.handle(event);
    assert_eq!(app.status, "Thinking...");
    assert_eq!(app.streaming.as_deref(), Some(""));
    for piece in ["wor", "ld"] {
        let event = sending.chunk(piece);
        app.handle(event);
    }
    assert_eq!(app.streaming.as_deref(), Some("world"));
    app.handle(sending.finish());
    assert!(app.streaming.is_none());
    assert_eq!(app.status, "Ready");
    assert_eq!(app.messages.len(), 2);
    assert_eq!(app.messages[0].content, "hello");
    assert_eq!(app.messages[1].content, "world");
    assert_eq!(app.messages[1].role, Role::Assistant);
}

#[test]
fn error_ends_the_answer() {
    let mut app = App::new();
    app.handle(AppEvent::UserMessage("hello".to_string()));
    app.handle(AppEvent::Error("no route".to_string()));
    assert_eq!(app.status, "Error: no route");
    assert!(app.streaming.is_none());
    app.handle(AppEvent::Chunk("late".to_string()));
    assert!(app.streaming.is_none());
}

fn message(role: Role, content: Vec<Content>) -> Message {
    Message {
        id: MessageId::new(),
        role,
        content,
        timestamp: Timestamp::now(),
    }
}

#[test]
fn opened_conversation_shows_messages_with_text() {
    let now = Timestamp::now();
    let mut conversation = Conversation {
        id: ConversationId::from_uuid(1),
        parent: None,
        items: vec![],
        summary: None,
        created_at: now,
        updated_at: now,
        resolved_at: None,
    };
    let text = |text: &str| Content::Text {
        text: text.to_string(),
    };
    let messages = vec![
        message(Role::User, vec![text("a"), text("b")]),
        message(
            Role::Assistant,
            vec![Content::ToolCall {
                id: "c".to_string(),
                name: "n".to_string(),
                input: Json::null(),
            }],
        ),
        message(
            Role::System,
            vec![Content::TemporalUpdate {
                timestamp: "now".to_string(),
            }],
        ),
    ];
    let mut app = App::new();
    app.open(&conversation, &messages);
    assert_eq!(app.messages.len(), 1);
    assert_eq!(app.messages[0].content, "ab");
    assert_eq!(
        app.status,
        "ConversationId(00000000-0000-0000-0000-000000000001)"
    );

    conversation.summary = Some(Summary {
        content: "s".to_string(),
        created_at: now,
    });
    app.open(&conversation, &vec![]);
    assert!(app.messages.is_empty());
    assert_eq!(
        app.status,
        "ConversationId(00000000-0000-0000-0000-000000000001) with summary"
    );
}

#[test]
fn transcript_is_laid_out() {
    let mut app = App::new();
    app.handle(AppEvent::UserMessage("hello".to_string()));
    app.handle(AppEvent::Done("# hi".to_string()));
    app.handle(AppEvent::UserMessage("more".to_string()));
    app.handle(AppEvent::Chunk("so".to_string()));
    let text = build_text(&app);
    assert_eq!(text.len(), 11);
    assert!(matches!(&text[0], Piece::Speaker { prefix, .. } if *prefix == "You: "));
    assert!(matches!(&text[1], Piece::Plain { text } if text == "hello"));
    assert!(matches!(&text[2], Piece::Gap));
    assert!(matches!(&text[3], Piece::Speaker { prefix, .. } if *prefix == "Brain: "));
    assert!(matches!(&text[4], Piece::Markdown { text } if text == "# hi"));
    assert!(matches!(&text[9], Piece::Speaker { prefix, .. } if *prefix == "Brain: "));
    assert!(matches!(&text[10], Piece::Markdown { text } if text == "so"));
}

fn lines(widths: &[usize]) -> Vec<Vec<String>> {
    widths.iter().map(|w| vec!["x".repeat(*w)]).collect()
}

#[test]
fn wrapped_lines_are_counted() {
    let count = |lines: Vec<Vec<String>>, width| count_wrapped_lines(&lines, width).unwrap();
    assert_eq!(count(lines(&[0, 1, 10, 11, 20, 21]), 10), 10);
    assert_eq!(count(lines(&[0, 5, 99]), 0), 3);
    assert_eq!(count(vec![vec![]], 10), 1);
    let spans = vec![vec!["h\u{e9}".to_string(), "llo".to_string()]];
    assert_eq!(count(spans.clone(), 5), 1);
    assert_eq!(count(spans, 4), 2);
}

#[test]
fn lists_that_could_be_too_deep_are_shown_as_they_are() {
    assert!(is_shallow("1. a\n2) b\n- c\n* d\n+ e"));
    assert!(is_shallow(&"a.".repeat(MAX_LIST_DEPTH + 1)));
    assert!(is_shallow(&format!("a\n\n{}", ".".repeat(MAX_LIST_DEPTH + 1))));
    assert!(is_shallow(&"- item. And (1) more.\n".repeat(MAX_LIST_DEPTH + 1)));
    assert!(is_shallow(&"1) one\r\n".repeat(MAX_LIST_DEPTH + 1)));
    assert!(is_shallow(&format!("a {}", "1. ".repeat(MAX_LIST_DEPTH + 1))));
    assert!(!is_shallow(&"1. ".repeat(MAX_LIST_DEPTH + 1)));
    assert!(!is_shallow(&"+ ".repeat(MAX_LIST_DEPTH + 1)));
    assert!(!is_shallow(&format!("{}- a", "\t".repeat(MAX_LIST_DEPTH / 2))));
    assert!(!is_shallow(&format!("[^a]: {}", "1. ".repeat(MAX_LIST_DEPTH + 1))));

    let deep = "1. ".repeat(MAX_LIST_DEPTH + 1);
    let mut app = App::new();
    app.handle(AppEvent::Done(deep.clone()));
    let shown: Vec<String> = screen_lines(&app)
        .into_iter()
        .map(|spans| spans.concat())
        .collect();
    assert_eq!(shown, vec!["Brain: ".to_string(), deep, String::new()]);
}

#[test]
fn long_prose_and_long_lists_are_laid_out() {
    let dots = ".".repeat(MAX_LIST_DEPTH + 1);
    let mut app = App::new();
    app.handle(AppEvent::Done(format!("a\n\n{dots}")));
    let shown: Vec<String> = screen_lines(&app)
        .into_iter()
        .map(|spans| spans.concat())
        .collect();
    assert_eq!(
        shown,
        vec![
            "Brain: ".to_string(),
            "a".to_string(),
            String::new(),
            dots,
            String::new()
        ]
    );
}

#[test]
fn transcript_lines_are_what_the_screen_shows() {
    let mut app = App::new();
    app.handle(AppEvent::UserMessage("one\ntwo".to_string()));
    app.handle(AppEvent::Done("a **bold** word\n\n- item".to_string()));
    let shown: Vec<String> = screen_lines(&app)
        .into_iter()
        .map(|spans| spans.concat())
        .collect();
    assert_eq!(
        shown,
        vec![
            "You: ",
            "onetwo",
            "",
            "Brain: ",
            "a bold word",
            "",
            "- item",
            ""
        ]
    );
    assert_eq!(first_row(&app, 80, 5), Some(5));
    assert_eq!(first_row(&app, 80, 100), Some(0));
    app.press(Key::PageUp);
    app.scroll = 2;
    assert_eq!(first_row(&app, 80, 5), Some(2));
    assert_eq!(first_row(&app, 1, 1), Some(2));
}

#[test]
fn scroll_stops_at_the_last_row() {
    assert_eq!(scroll_row(u16::MAX, 30, 10), 20);
    assert_eq!(scroll_row(5, 30, 10), 5);
    assert_eq!(scroll_row(5, 3, 10), 0);
    assert_eq!(scroll_row(u16::MAX, 0x1_0000 + 17, 10), 7);
}
