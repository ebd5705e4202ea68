use brain::json::Json;
use brain::memory_index::{record_edge, RelatedConversation};
use brain::models::conversation::{Conversation, ConversationId, ConversationItem};
use brain::models::message::{Content, Message, MessageId, Role};
use brain::models::summary::Summary;
use brain::order::{order_ids, order_names, precedes};
use brain::surreal::migrations::{default_migrations_dir, is_migration_name, pending_migrations};
use brain::surreal::store::{
    append_messages, conversation_from_record, conversation_record_id, list_items,
    message_from_record, message_record_id, parse_conversation_id, parse_message_id,
    resolvable_parent, resolve_branch, role_from_word, search_query, surreal_escape,
    timestamp_from_string, timestamp_to_string, tool_search_query, ConversationRecord, ItemRow,
    MessageRow, RecordKey, RecordRef,
};
use brain::testing::conversation_store::InMemoryConversationStore;
use brain::testing::memory_index::MockMemoryIndex;
use brain::time::Timestamp;

fn message(role: Role, text: &str) -> Message {
    Message {
        id: MessageId::new(),
        role,
        content: vec![Content::Text {
            text: text.to_string(),
        }],
        timestamp: Timestamp::now(),
    }
}

fn ids(messages: &[Message]) -> Vec<MessageId> {
    messages.iter().map(|m| m.id).collect()
}

// The store in memory

#[test]
fn created_conversation_can_be_read() {
    let mut store = InMemoryConversationStore::new();
    let root = store.create(None);
    assert!(root.parent.is_none());
    assert!(root.items.is_empty());
    assert_eq!(store.get(root.id).unwrap().id, root.id);

    let child = store.create(Some(root.id));
    assert_eq!(store.get(child.id).unwrap().parent, Some(root.id));
    assert!(store.get(ConversationId::new()).is_none());
}

#[test]
fn appended_messages_are_listed_in_order() {
    let mut store = InMemoryConversationStore::new();
    let conv = store.create(None).id;
    let first = message(Role::User, "one");
    let pair = vec![message(Role::Assistant, "two"), message(Role::User, "three")];
    let mut expected = vec![first.id];
    expected.extend(ids(&pair));
    store.append_message(conv, first);
    store.append_messages(conv, pair);
    assert_eq!(ids(&store.list_messages(conv)), expected);
}

#[test]
fn appended_messages_are_listed_last_beside_an_entry_without_a_message() {
    let mut store = InMemoryConversationStore::new();
    let conv = store.create(None).id;
    let other = store.create(None).id;
    let kept = message(Role::User, "kept");
    let kept_id = kept.id;
    store.append_message(other, kept);
    store.reference_messages(conv, vec![MessageId::new(), kept_id]);
    assert_eq!(ids(&store.list_messages(conv)), vec![kept_id]);

    let pair = vec![message(Role::Assistant, "call"), message(Role::User, "result")];
    let mut expected = vec![kept_id];
    expected.extend(ids(&pair));
    store.append_messages(conv, pair);
    assert_eq!(ids(&store.list_messages(conv)), expected);
    assert_eq!(ids(&store.list_messages(other)), vec![kept_id]);
}

#[test]
fn referenced_messages_keep_their_order() {
    let mut store = InMemoryConversationStore::new();
    let parent = store.create(None).id;
    let messages: Vec<Message> = ["a", "b", "c"]
        .iter()
        .map(|t| message(Role::User, t))
        .collect();
    let shared = vec![messages[2].id, messages[0].id];
    store.append_messages(parent, messages);

    let child = store.create(Some(parent)).id;
    store.reference_messages(child, shared.clone());
    assert_eq!(ids(&store.list_messages(child)), shared);
    assert!(store
        .get(child)
        .unwrap()
        .items
        .iter()
        .all(|i| matches!(i, ConversationItem::ReferencedMessage(_))));
}

#[test]
fn summary_is_replaced() {
    let mut store = InMemoryConversationStore::new();
    let conv = store.create(None).id;
    for text in ["old", "new"] {
        store.update_summary(
            conv,
            Summary {
                content: text.to_string(),
                created_at: Timestamp::now(),
            },
        );
    }
    assert_eq!(store.get(conv).unwrap().summary.unwrap().content, "new");
}

#[test]
fn current_is_what_was_set() {
    let mut store = InMemoryConversationStore::new();
    assert!(store.current().is_err());
    let conv = store.create(None).id;
    store.set_current(conv);
    assert_eq!(store.current().unwrap(), conv);
}

#[test]
fn resolved_branch_delivers_once() {
    let mut store = InMemoryConversationStore::new();
    let parent = store.create(None).id;
    let child = store.create(Some(parent)).id;
    store.append_message(child, message(Role::User, "talk"));
    let payload = vec![message(Role::Assistant, "call"), message(Role::Assistant, "result")];
    let expected = ids(&payload);

    store.resolve_branch(child, payload).unwrap();
    assert_eq!(ids(&store.list_messages(parent)), expected);
    assert_eq!(store.current().unwrap(), parent);
    assert!(store.get(child).unwrap().resolved_at.is_some());

    assert!(store.resolve_branch(child, vec![]).is_err());
    assert!(store.resolve_branch(parent, vec![]).is_err());
    assert!(store.resolve_branch(ConversationId::new(), vec![]).is_err());
}

// The memory index

#[test]
fn recording_a_recall_twice_keeps_one_edge() {
    let mut index = MockMemoryIndex::new();
    let (from, to, other) = (
        ConversationId::new(),
        ConversationId::new(),
        ConversationId::new(),
    );
    index.record_recall(from, to, 80);
    index.record_recall(from, other, 81);
    index.record_recall(from, to, 90);
    assert_eq!(index.recalled(from), vec![to, other]);
    assert!(index.recalled(to).is_empty());

    let mut edges = vec![RelatedConversation { id: to, score: 1 }];
    record_edge(&mut edges, to, 2);
    assert_eq!(edges, vec![RelatedConversation { id: to, score: 2 }]);
}

// Records

#[test]
fn record_ids_read_back() {
    let conv = ConversationId::new();
    let record = conversation_record_id(conv);
    assert_eq!(record.table, "conversation");
    assert!(matches!(&record.key, RecordKey::Text(key) if *key == conv.to_string()));
    assert_eq!(parse_conversation_id(&record).unwrap(), conv);

    let msg = MessageId::new();
    let record = message_record_id(msg);
    assert_eq!(record.table, "message");
    assert_eq!(parse_message_id(&record).unwrap(), msg);
}

#[test]
fn odd_record_keys_are_refused() {
    let other = RecordRef {
        table: "conversation".to_string(),
        key: RecordKey::Other,
    };
    assert!(parse_conversation_id(&other).is_err());
    assert!(parse_message_id(&other).is_err());
    let text = RecordRef {
        table: "conversation".to_string(),
        key: RecordKey::Text("not-a-uuid".to_string()),
    };
    assert!(parse_conversation_id(&text).is_err());
    assert!(parse_message_id(&text).is_err());
}

#[test]
fn timestamps_and_roles_read_back() {
    let now = Timestamp::now();
    assert_eq!(timestamp_from_string(&timestamp_to_string(now)).unwrap(), now);
    assert!(timestamp_from_string("yesterday").is_err());
    for role in [Role::User, Role::Assistant, Role::System] {
        assert_eq!(role_from_word(role.name()), role);
    }
}

fn unescape(text: &str) -> String {
    let mut out = String::new();
    let mut chars = text.chars();
    while let Some(c) = chars.next() {
        out.push(if c == '\\' { chars.next().unwrap() } else { c });
    }
    out
}

#[test]
fn escaped_text_reads_back() {
    for text in ["plain", "it's", "a\\b", "\\'", "'", ""] {
        assert_eq!(unescape(&surreal_escape(text)), text);
    }
    assert_eq!(surreal_escape("it's"), "it\\'s");
}

fn row(text: &str) -> MessageRow {
    MessageRow {
        id: MessageId::new(),
        role: Role::User,
        content: text.to_string(),
        timestamp: Timestamp::from_nanosecond(0).unwrap(),
    }
}

#[test]
fn append_is_one_transaction() {
    let conv = ConversationId::new();
    let now = Timestamp::from_nanosecond(0).unwrap();
    assert!(append_messages(conv, &vec![], now).is_none());

    let rows = vec![row("[]"), row("it's")];
    let query = append_messages(conv, &rows, now).unwrap();
    assert!(query.starts_with("BEGIN"));
    assert_eq!(query.matches("BEGIN").count(), 1);
    assert_eq!(query.matches("COMMIT").count(), 1);
    for r in &rows {
        assert!(query.contains(&r.id.to_string()));
    }
    assert!(query.contains("it\\'s"));
    assert!(query.contains(&conv.to_string()));
}

#[test]
fn resolve_is_one_transaction() {
    let (child, parent) = (ConversationId::new(), ConversationId::new());
    let now = Timestamp::from_nanosecond(0).unwrap();
    let query = resolve_branch(child, parent, &vec![row("[]")], now);
    assert_eq!(query.matches("BEGIN").count(), 1);
    assert_eq!(query.matches("COMMIT").count(), 1);
    assert!(query.contains(&child.to_string()));
    assert!(query.contains(&parent.to_string()));
    assert!(query.contains("resolved_at"));
}

fn conversation(parent: Option<ConversationId>, resolved: bool) -> Conversation {
    let now = Timestamp::now();
    Conversation {
        id: ConversationId::new(),
        parent,
        items: vec![],
        summary: None,
        created_at: now,
        updated_at: now,
        resolved_at: if resolved { Some(now) } else { None },
    }
}

#[test]
fn only_an_open_branch_can_be_resolved() {
    let parent = ConversationId::new();
    let open = conversation(Some(parent), false);
    assert_eq!(resolvable_parent(open.id, &Some(open.clone())).unwrap(), parent);
    let closed = conversation(Some(parent), true);
    assert!(resolvable_parent(closed.id, &Some(closed.clone())).is_err());
    let root = conversation(None, false);
    assert!(resolvable_parent(root.id, &Some(root.clone())).is_err());
    assert!(resolvable_parent(parent, &None).is_err());
}

#[test]
fn item_rows_tell_own_from_shared() {
    let (own, shared) = (MessageId::new(), MessageId::new());
    let items = list_items(&vec![
        ItemRow {
            message: own,
            item_type: "message".to_string(),
        },
        ItemRow {
            message: shared,
            item_type: "referenced".to_string(),
        },
    ]);
    assert_eq!(
        items,
        vec![
            ConversationItem::Message(own),
            ConversationItem::ReferencedMessage(shared)
        ]
    );
}

fn record() -> ConversationRecord {
    ConversationRecord {
        parent: None,
        summary_content: Some("so far".to_string()),
        summary_created_at: Some("2024-01-01T00:00:00Z".to_string()),
        created_at: "2024-01-01T00:00:00Z".to_string(),
        updated_at: "2024-01-02T00:00:00Z".to_string(),
        resolved_at: None,
    }
}

#[test]
fn conversation_record_is_read() {
    let id = ConversationId::new();
    let parent = ConversationId::new();
    let mut stored = record();
    stored.parent = Some(conversation_record_id(parent));
    let conv = conversation_from_record(id, stored, vec![]).unwrap();
    assert_eq!(conv.id, id);
    assert_eq!(conv.parent, Some(parent));
    assert_eq!(conv.summary.unwrap().content, "so far");
    assert_eq!(conv.created_at.to_string(), "2024-01-01T00:00:00Z");
    assert_eq!(conv.updated_at.to_string(), "2024-01-02T00:00:00Z");
    assert!(conv.resolved_at.is_none());

    let mut half = record();
    half.summary_created_at = None;
    let conv = conversation_from_record(id, half, vec![]).unwrap();
    assert!(conv.summary.is_none());

    let mut broken = record();
    broken.created_at = "soon".to_string();
    assert!(conversation_from_record(id, broken, vec![]).is_err());
}

#[test]
fn message_record_is_read() {
    let id = MessageId::new();
    let content = vec![Content::ToolCall {
        id: "c".to_string(),
        name: "n".to_string(),
        input: Json::null(),
    }];
    let read = message_from_record(id, "assistant", content, "1970-01-01T00:00:00Z").unwrap();
    assert_eq!(read.id, id);
    assert_eq!(read.role, Role::Assistant);
    assert_eq!(read.timestamp.as_nanosecond(), 0);
    assert!(message_from_record(id, "user", vec![], "later").is_err());
}

#[test]
fn search_queries_name_their_limit() {
    assert!(search_query(3, false).contains('3'));
    assert!(search_query(3, true).len() > search_query(3, false).len());
    assert!(tool_search_query(0).is_none());
    assert!(tool_search_query(5).unwrap().contains('5'));
}

// Migrations and order

#[test]
fn migrations_run_once_in_name_order() {
    let names: Vec<String> = ["002_b.surql", "README.md", "001_a.surql", "003_c.surql"]
        .iter()
        .map(|n| n.to_string())
        .collect();
    assert!(is_migration_name("001_a.surql"));
    assert!(!is_migration_name("README.md"));
    let first = pending_migrations(&names, &vec!["002_b.surql".to_string()]);
    assert_eq!(first, vec!["001_a.surql", "003_c.surql"]);

    let all = pending_migrations(&names, &vec![]);
    assert_eq!(all, vec!["001_a.surql", "002_b.surql", "003_c.surql"]);
    assert!(pending_migrations(&names, &all).is_empty());
    assert!(default_migrations_dir("base").starts_with("base"));
}

#[test]
fn orders_sort() {
    assert_eq!(order_ids(&vec![30, 10, 20]), vec![1, 2, 0]);
    let names: Vec<String> = ["b", "", "ab", "a"].iter().map(|n| n.to_string()).collect();
    assert_eq!(order_names(&names), vec![1, 3, 2, 0]);
    assert!(precedes("a", "b"));
    assert!(!precedes("b", "a"));
}
