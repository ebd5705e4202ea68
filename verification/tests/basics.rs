use brain::json::Json;
use brain::models::conversation::{ConversationId, ConversationItem};
use brain::models::message::{extract_text, Content, MessageId, Role};
use brain::text::{
    decimal, join, lines, rsplit_once, split_once, starts_with, strip_prefix, strip_suffix, trim,
    trim_end, trim_end_matches, trim_start, trim_start_matches,
};
use brain::time::{Timestamp, MAX_NANOS, MIN_NANOS};

// Texts

const SAMPLES: [&str; 9] = [
    "",
    " ",
    "plain",
    "\t two \u{a0}words\u{2003}\n",
    "a\nb\r\nc\r\n",
    "\n\n",
    "one\rtwo\n\r\nthree",
    "//a//b//",
    "\u{85}\u{feff}x\u{3000}",
];

#[test]
fn text_functions_agree_with_std() {
    for s in SAMPLES {
        assert_eq!(trim(s), s.trim());
        assert_eq!(trim_start(s), s.trim_start());
        assert_eq!(trim_end(s), s.trim_end());
        assert_eq!(trim_start_matches(s, '/'), s.trim_start_matches('/'));
        assert_eq!(trim_end_matches(s, '/'), s.trim_end_matches('/'));
        assert_eq!(lines(s), s.lines().collect::<Vec<_>>());
        assert_eq!(
            split_once(s, '\n'),
            s.split_once('\n')
                .map(|(a, b)| (a.to_string(), b.to_string()))
        );
        assert_eq!(
            rsplit_once(s, '/'),
            s.rsplit_once('/')
                .map(|(a, b)| (a.to_string(), b.to_string()))
        );
        assert_eq!(starts_with(s, '/'), s.starts_with('/'));
        assert_eq!(
            strip_prefix(s, "//"),
            s.strip_prefix("//").map(str::to_string)
        );
        assert_eq!(
            strip_suffix(s, "\r\n"),
            s.strip_suffix("\r\n").map(str::to_string)
        );
    }
}

#[test]
fn every_white_space_character_is_trimmed() {
    for code in 0..=0x3100u32 {
        let Some(c) = char::from_u32(code) else {
            continue;
        };
        let s = format!("{c}x{c}");
        assert_eq!(trim(&s), s.trim());
    }
}

#[test]
fn numbers_and_lists_are_written_out() {
    for n in [0, 7, 10, 4096, u64::MAX] {
        assert_eq!(decimal(n), n.to_string());
    }
    let parts: Vec<String> = ["a", "", "b"].iter().map(|p| p.to_string()).collect();
    assert_eq!(join(&parts, ", "), "a, , b");
    assert_eq!(join(&vec![], ", "), "");
}

// Identities

#[test]
fn fresh_identities_are_versioned_and_different() {
    let (a, b) = (ConversationId::new(), ConversationId::new());
    assert_ne!(a, b);
    let uuid = uuid::Uuid::from_u128(a.as_uuid());
    assert_eq!(uuid.get_version_num(), 4);
    let message = MessageId::new();
    assert_eq!(
        uuid::Uuid::from_u128(message.as_uuid()).get_version_num(),
        7
    );
}

#[test]
fn identity_text_is_hyphenated() {
    let id = MessageId::from_uuid(0x0123_4567_89ab_cdef_0123_4567_89ab_cdef);
    assert_eq!(id.to_string(), "01234567-89ab-cdef-0123-456789abcdef");
    assert_eq!(
        ConversationId::from_uuid(0).to_string(),
        "00000000-0000-0000-0000-000000000000"
    );
}

#[test]
fn item_names_its_message() {
    let id = MessageId::new();
    assert_eq!(ConversationItem::Message(id).message_id(), id);
    assert_eq!(ConversationItem::ReferencedMessage(id).message_id(), id);
}

// Instants

#[test]
fn instants_are_written_and_read() {
    let t = Timestamp::from_nanosecond(1_500_000_000).unwrap();
    assert_eq!(t.to_string(), "1970-01-01T00:00:01.5Z");
    assert_eq!(Timestamp::parse("1970-01-01T00:00:01.5Z"), Some(t));
    assert_eq!(
        Timestamp::parse("1970-01-01T02:00:01.5+02:00"),
        Some(t)
    );
    assert_eq!(Timestamp::parse("not a time"), None);
    assert_eq!(t.as_nanosecond(), 1_500_000_000);
}

#[test]
fn instants_have_a_range() {
    for nanos in [MIN_NANOS, MAX_NANOS, 0, -1] {
        let t = Timestamp::from_nanosecond(nanos).unwrap();
        assert_eq!(Timestamp::parse(&t.to_string()), Some(t));
    }
    assert!(Timestamp::from_nanosecond(MIN_NANOS - 1).is_none());
    assert!(Timestamp::from_nanosecond(MAX_NANOS + 1).is_none());
    assert_eq!(
        jiff::Timestamp::MAX.as_nanosecond(),
        MAX_NANOS
    );
    assert_eq!(
        jiff::Timestamp::MIN.as_nanosecond(),
        MIN_NANOS
    );
}

#[test]
fn clock_moves_forward() {
    let before = jiff::Timestamp::now().as_nanosecond();
    let now = Timestamp::now().as_nanosecond();
    let after = jiff::Timestamp::now().as_nanosecond();
    assert!(before <= now && now <= after);
}

// Documents

#[test]
fn documents_are_printed_from_their_text() {
    let doc = Json::parse("{ \"a\" : [ 1, \"x\" ] }").unwrap();
    assert_eq!(doc.source(), "{ \"a\" : [ 1, \"x\" ] }");
    assert_eq!(doc.compact(), r#"{"a":[1,"x"]}"#);
    assert_eq!(doc.pretty(), "{\n  \"a\": [\n    1,\n    \"x\"\n  ]\n}");
    assert!(Json::parse("{").is_none());
    assert_eq!(Json::parse_or_null("{").compact(), "null");
    assert_eq!(Json::null().source(), "null");
    assert_eq!(Json::null().compact(), "null");
    assert_eq!(doc.shown_as(None), r#"{"a":[1,"x"]}"#);
    assert_eq!(doc.shown_as(Some("x".to_string())), "x");
}

#[test]
fn numbers_print_alike_in_every_form() {
    for number in [
        "31.245270191439438",
        "121.48791951161945",
        "100.78399658203125",
        "0.1234567890123456789",
        "12345678901234567890123",
    ] {
        let doc = Json::parse(number).unwrap();
        assert_eq!(doc.pretty(), doc.compact());
        assert_eq!(doc.source(), number);
    }
}

#[test]
fn members_are_looked_up_as_strings() {
    let doc = Json::parse(r#"{"a":"x","b":1}"#).unwrap();
    assert_eq!(doc.get_str("a").as_deref(), Some("x"));
    assert_eq!(doc.get_str("b"), None);
    assert_eq!(doc.get_str("c"), None);
    assert_eq!(Json::null().get_str("a"), None);
}

// Messages

#[test]
fn text_of_a_message_is_its_text_pieces() {
    let content = vec![
        Content::Text {
            text: "a".to_string(),
        },
        Content::ToolResult {
            id: "i".to_string(),
            output: "o".to_string(),
            is_error: false,
        },
        Content::Text {
            text: "b".to_string(),
        },
    ];
    assert_eq!(extract_text(&content), "ab");
    assert_eq!(Role::User.name(), "user");
    assert_eq!(Role::Assistant.name(), "assistant");
    assert_eq!(Role::System.name(), "system");
}
