//! Conversations and messages as records, and the statements that write them.

use vstd::prelude::*;
use vstd::string::*;

use crate::failure::Failure;
use crate::identity::{hyphenated, parse_id, parsed_uuid};
use crate::models::conversation::{Conversation, ConversationId, ConversationItem, ConversationView};
use crate::models::message::{Content, Message, MessageId, MessageView, Role};
use crate::models::summary::{Summary, SummaryView};
use crate::order::{ascending_ids, order_ids, positions};
use crate::text::{chars_of, decimal, numeral, same};
use crate::time::{instant_text, parsed_instant, Timestamp};

verus! {

/// Embedding vector dimension used by the vector index. It matches the
/// dimension of the vectors that the embedder produces.
pub const EMBED_DIMENSION: usize = 1024;

// ---------------------------------------------------------------------------
// Record identities
// ---------------------------------------------------------------------------

/// The key of a record.
#[derive(Debug)]
pub enum RecordKey {
    Text(String),
    /// A key of any other kind.
    Other,
}

/// The identity of a record.
#[derive(Debug)]
pub struct RecordRef {
    pub table: String,
    pub key: RecordKey,
}

#[verifier::ext_equal]
pub struct RecordView {
    pub table: Seq<char>,
    /// The key, if it is a text.
    pub key: Option<Seq<char>>,
}

impl View for RecordRef {
    type V = RecordView;

    open spec fn view(&self) -> RecordView {
        RecordView {
            table: self.table@,
            key: match self.key {
                RecordKey::Text(text) => Some(text@),
                RecordKey::Other => None,
            },
        }
    }
}

/// The record of a conversation.
pub open spec fn conversation_record(id: ConversationId) -> RecordView {
    RecordView { table: "conversation"@, key: Some(hyphenated(id.0)) }
}

/// The record of a message.
pub open spec fn message_record(id: MessageId) -> RecordView {
    RecordView { table: "message"@, key: Some(hyphenated(id.0)) }
}

pub fn conversation_record_id(id: ConversationId) -> (r: RecordRef)
    ensures
        r@ == conversation_record(id),
{
    RecordRef { table: "conversation".to_owned(), key: RecordKey::Text(id.to_string()) }
}

pub fn message_record_id(id: MessageId) -> (r: RecordRef)
    ensures
        r@ == message_record(id),
{
    RecordRef { table: "message".to_owned(), key: RecordKey::Text(id.to_string()) }
}

/// The identity that a record's key gives, by what the key reads as.
pub fn id_from_key(parsed: Option<u128>, wrong: &str) -> (r: Result<u128, Failure>)
    ensures
        match parsed {
            Some(value) => r matches Ok(v) && v == value,
            None => r matches Err(failure) && failure@ == wrong@,
        },
{
    match parsed {
        Some(value) => Ok(value),
        None => Err(Failure::new(wrong)),
    }
}

/// The conversation of a record. The record of a conversation gives it back.
pub fn parse_conversation_id(record: &RecordRef) -> (r: Result<ConversationId, Failure>)
    ensures
        match record@.key {
            Some(key) => match parsed_uuid(key) {
                Some(value) => r matches Ok(id) && id.0 == value,
                None => r matches Err(failure) && failure@ == "invalid conversation uuid"@,
            },
            None => r matches Err(failure) && failure@ == "invalid conversation record key"@,
        },
        forall|id: ConversationId| #[trigger] conversation_record(id) == record@ ==> r == Ok::<
            ConversationId,
            Failure,
        >(id),
{
    match &record.key {
        RecordKey::Text(key) => match id_from_key(
            parse_id(key.as_str()),
            "invalid conversation uuid",
        ) {
            Ok(value) => Ok(ConversationId(value)),
            Err(failure) => Err(failure),
        },
        RecordKey::Other => Err(Failure::new("invalid conversation record key")),
    }
}

/// The message of a record. The record of a message gives it back.
pub fn parse_message_id(record: &RecordRef) -> (r: Result<MessageId, Failure>)
    ensures
        match record@.key {
            Some(key) => match parsed_uuid(key) {
                Some(value) => r matches Ok(id) && id.0 == value,
                None => r matches Err(failure) && failure@ == "invalid message uuid"@,
            },
            None => r matches Err(failure) && failure@ == "invalid message record key"@,
        },
        forall|id: MessageId| #[trigger] message_record(id) == record@ ==> r == Ok::<
            MessageId,
            Failure,
        >(id),
{
    match &record.key {
        RecordKey::Text(key) => match id_from_key(parse_id(key.as_str()), "invalid message uuid") {
            Ok(value) => Ok(MessageId(value)),
            Err(failure) => Err(failure),
        },
        RecordKey::Other => Err(Failure::new("invalid message record key")),
    }
}

pub fn timestamp_to_string(ts: Timestamp) -> (r: String)
    ensures
        r@ == instant_text(ts@),
        parsed_instant(r@) matches Some(n) && n == ts@,
{
    ts.to_string()
}

/// The instant of a stored text. What `timestamp_to_string` gives of an
/// instant gives it back.
pub fn timestamp_from_string(text: &str) -> (r: Result<Timestamp, Failure>)
    ensures
        match parsed_instant(text@) {
            Some(n) => r matches Ok(t) && t@ == n,
            None => r matches Err(failure) && failure@ == "invalid timestamp"@,
        },
{
    match Timestamp::parse(text) {
        Some(t) => Ok(t),
        None => Err(Failure::new("invalid timestamp")),
    }
}

/// The role that a stored word stands for. A word that is not known is the
/// user's.
pub open spec fn role_of(word: Seq<char>) -> Role {
    if word == "assistant"@ {
        Role::Assistant
    } else if word == "system"@ {
        Role::System
    } else {
        Role::User
    }
}

pub fn role_from_word(word: &str) -> (r: Role)
    ensures
        r == role_of(word@),
{
    if same(word, "assistant") {
        Role::Assistant
    } else if same(word, "system") {
        Role::System
    } else {
        Role::User
    }
}

/// Reading the stored word of a role gives the role back.
pub proof fn law_stored_role_reads_back(role: Role)
    ensures
        role_of(role.word()) == role,
{
    reveal_strlit("user");
    reveal_strlit("assistant");
    reveal_strlit("system");
    assert("user"@.len() != "assistant"@.len());
    assert("user"@.len() != "system"@.len());
    assert("assistant"@.len() != "system"@.len());
}

// ---------------------------------------------------------------------------
// String literals
// ---------------------------------------------------------------------------

/// A character of a single-quoted literal.
pub open spec fn escaped_char(c: char) -> Seq<char> {
    if c == '\\' || c == '\'' {
        seq!['\\', c]
    } else {
        seq![c]
    }
}

/// A text as it stands inside a single-quoted literal: a backslash goes before
/// every backslash and every quote.
pub open spec fn escaped(s: Seq<char>) -> Seq<char>
    decreases s.len(),
{
    if s.len() == 0 {
        Seq::empty()
    } else {
        escaped(s.drop_last()) + escaped_char(s.last())
    }
}

/// What a single-quoted literal holds: a backslash stands for the character
/// behind it. `None` where a quote would end the literal early, or a backslash
/// stands last.
pub open spec fn literal_value(s: Seq<char>) -> Option<Seq<char>>
    decreases s.len(),
{
    if s.len() == 0 {
        Some(Seq::empty())
    } else if s[0] == '\'' {
        None
    } else if s[0] == '\\' {
        if s.len() < 2 {
            None
        } else {
            match literal_value(s.skip(2)) {
                Some(rest) => Some(seq![s[1]] + rest),
                None => None,
            }
        }
    } else {
        match literal_value(s.drop_first()) {
            Some(rest) => Some(seq![s[0]] + rest),
            None => None,
        }
    }
}

proof fn lemma_escaped_first(s: Seq<char>)
    requires
        s.len() > 0,
    ensures
        escaped(s) == escaped_char(s[0]) + escaped(s.drop_first()),
    decreases s.len(),
{
    if s.len() == 1 {
        assert(s.drop_last() =~= Seq::<char>::empty());
        assert(s.drop_first() =~= Seq::<char>::empty());
        assert(escaped(s) =~= escaped_char(s[0]) + escaped(s.drop_first()));
    } else {
        let front = s.drop_last();
        lemma_escaped_first(front);
        assert(front.drop_first() =~= s.drop_first().drop_last());
        assert(s.drop_first().last() == s.last());
        assert(escaped(s) =~= escaped_char(s[0]) + (escaped(front.drop_first()) + escaped_char(
            s.last(),
        )));
    }
}

/// An escaped text holds no quote that would end its literal, and the literal
/// holds the text.
pub proof fn law_escaped_text_reads_back(s: Seq<char>)
    ensures
        literal_value(escaped(s)) == Some(s),
    decreases s.len(),
{
    if s.len() > 0 {
        lemma_escaped_first(s);
        law_escaped_text_reads_back(s.drop_first());
        let e = escaped(s);
        let rest = escaped(s.drop_first());
        assert(seq![s[0]] + s.drop_first() =~= s);
        if s[0] == '\\' || s[0] == '\'' {
            assert(e.skip(2) =~= rest);
        } else {
            assert(e.drop_first() =~= rest);
        }
    }
}

/// Escapes a text for a single-quoted literal.
pub fn surreal_escape(s: &str) -> (r: String)
    ensures
        r@ == escaped(s@),
{
    let v = chars_of(s);
    let mut r = String::new();
    let mut i: usize = 0;
    while i < v.len()
        invariant
            i <= v@.len(),
            v@ == s@,
            r@ == escaped(s@.take(i as int)),
        decreases v@.len() - i,
    {
        assert(s@.take(i + 1).drop_last() =~= s@.take(i as int));
        assert(s@.take(i + 1).last() == v@[i as int]);
        let ghost before = r@;
        if v[i] == '\\' || v[i] == '\'' {
            r.push('\\');
        }
        r.push(v[i]);
        assert(r@ =~= before + escaped_char(v@[i as int]));
        i += 1;
    }
    assert(s@.take(i as int) =~= s@);
    r
}

// ---------------------------------------------------------------------------
// Transactions
// ---------------------------------------------------------------------------

/// A message to be written, with its content as JSON text.
#[derive(Debug)]
pub struct MessageRow {
    pub id: MessageId,
    pub role: Role,
    pub content: String,
    pub timestamp: Timestamp,
}

#[verifier::ext_equal]
pub struct MessageRowView {
    pub id: MessageId,
    pub role: Role,
    pub content: Seq<char>,
    pub timestamp: int,
}

impl View for MessageRow {
    type V = MessageRowView;

    open spec fn view(&self) -> MessageRowView {
        MessageRowView {
            id: self.id,
            role: self.role,
            content: self.content@,
            timestamp: self.timestamp@,
        }
    }
}

impl DeepView for MessageRow {
    type V = MessageRowView;

    open spec fn deep_view(&self) -> MessageRowView {
        self@
    }
}

/// The statements that write a message and list it in a conversation.
pub open spec fn insert_text(conversation: ConversationId, row: MessageRowView) -> Seq<char> {
    "CREATE message:`"@ + hyphenated(row.id.0) + "` SET role = '"@ + row.role.word()
        + "', content = '"@ + escaped(row.content) + "', timestamp = '"@ + instant_text(
        row.timestamp,
    ) + "';\nRELATE conversation:`"@ + hyphenated(conversation.0)
        + "`->conversation_item->message:`"@ + hyphenated(row.id.0)
        + "` SET item_type = 'message';\n"@
}

/// The statements that write several messages, in order.
pub open spec fn inserts_text(conversation: ConversationId, rows: Seq<MessageRowView>) -> Seq<char>
    decreases rows.len(),
{
    if rows.len() == 0 {
        Seq::empty()
    } else {
        inserts_text(conversation, rows.drop_last()) + insert_text(conversation, rows.last())
    }
}

/// The statement that marks a conversation as updated.
pub open spec fn touch_text(conversation: ConversationId, now: Seq<char>) -> Seq<char> {
    "UPDATE conversation:`"@ + hyphenated(conversation.0) + "` SET updated_at = '"@ + now + "';\n"@
}

/// The transaction that appends messages.
pub open spec fn append_text(
    conversation: ConversationId,
    rows: Seq<MessageRowView>,
    now: Seq<char>,
) -> Seq<char> {
    "BEGIN TRANSACTION;\n"@ + inserts_text(conversation, rows) + touch_text(conversation, now)
        + "COMMIT TRANSACTION;"@
}

/// The statements that close a branch and make its parent current.
pub open spec fn close_text(child: ConversationId, parent: ConversationId, now: Seq<char>) -> Seq<
    char,
> {
    "UPDATE conversation:`"@ + hyphenated(child.0) + "` SET resolved_at = '"@ + now
        + "', updated_at = '"@ + now
        + "';\nUPSERT current_conversation:singleton SET current_id = conversation:`"@
        + hyphenated(parent.0) + "`, updated_at = '"@ + now + "';\n"@
}

/// The transaction that resolves a branch.
pub open spec fn resolve_text(
    child: ConversationId,
    parent: ConversationId,
    rows: Seq<MessageRowView>,
    now: Seq<char>,
) -> Seq<char> {
    "BEGIN TRANSACTION;\n"@ + inserts_text(parent, rows) + touch_text(parent, now) + close_text(
        child,
        parent,
        now,
    ) + "COMMIT TRANSACTION;"@
}

fn insert_statements(conversation: ConversationId, rows: &Vec<MessageRow>) -> (r: String)
    ensures
        r@ == inserts_text(conversation, rows.deep_view()),
{
    let ghost all = rows.deep_view();
    let key = conversation.to_string();
    let mut sql = String::new();
    let mut i: usize = 0;
    assert(sql@ =~= inserts_text(conversation, all.take(0)));
    while i < rows.len()
        invariant
            i <= rows@.len(),
            all == rows.deep_view(),
            key@ == hyphenated(conversation.0),
            sql@ == inserts_text(conversation, all.take(i as int)),
        decreases rows@.len() - i,
    {
        proof {
            let next = all.take(i + 1);
            assert(next.drop_last() =~= all.take(i as int));
            assert(next.last() == rows@[i as int]@);
        }
        let id = rows[i].id.to_string();
        let content = surreal_escape(rows[i].content.as_str());
        let timestamp = rows[i].timestamp.to_string();
        let ghost before = sql@;
        sql.append("CREATE message:`");
        sql.append(id.as_str());
        sql.append("` SET role = '");
        sql.append(rows[i].role.name());
        sql.append("', content = '");
        sql.append(content.as_str());
        sql.append("', timestamp = '");
        sql.append(timestamp.as_str());
        sql.append("';\nRELATE conversation:`");
        sql.append(key.as_str());
        sql.append("`->conversation_item->message:`");
        sql.append(id.as_str());
        sql.append("` SET item_type = 'message';\n");
        assert(sql@ =~= before + insert_text(conversation, rows@[i as int]@));
        i += 1;
    }
    assert(all.take(i as int) =~= all);
    sql
}

fn touch_statement(conversation: ConversationId, now: &str) -> (r: String)
    ensures
        r@ == touch_text(conversation, now@),
{
    let key = conversation.to_string();
    let mut sql = "UPDATE conversation:`".to_owned();
    sql.append(key.as_str());
    sql.append("` SET updated_at = '");
    sql.append(now);
    sql.append("';\n");
    sql
}

/// The transaction that appends messages to a conversation, or none where
/// there is nothing to append.
pub fn append_messages(conversation: ConversationId, rows: &Vec<MessageRow>, now: Timestamp) -> (r:
    Option<String>)
    ensures
        if rows@.len() == 0 {
            r is None
        } else {
            r matches Some(sql) && sql@ == append_text(
                conversation,
                rows.deep_view(),
                instant_text(now@),
            )
        },
{
    if rows.len() == 0 {
        return None;
    }
    let now = now.to_string();
    let mut sql = "BEGIN TRANSACTION;\n".to_owned();
    sql.append(insert_statements(conversation, rows).as_str());
    sql.append(touch_statement(conversation, now.as_str()).as_str());
    sql.append("COMMIT TRANSACTION;");
    Some(sql)
}

/// The parent of a branch that may be resolved, or why it may not.
pub open spec fn branch_parent(child: ConversationId, found: Option<ConversationView>) -> Result<
    ConversationId,
    Seq<char>,
> {
    let name = "branch "@ + hyphenated(child.0);
    match found {
        Some(conversation) => match conversation.parent {
            Some(parent) => if conversation.resolved_at is Some {
                Err(name + " is already resolved"@)
            } else {
                Ok(parent)
            },
            None => Err(name + " has no parent"@),
        },
        None => Err(name + " not found"@),
    }
}

fn branch_failure(child: ConversationId, what: &str) -> (r: Failure)
    ensures
        r@ == "branch "@ + hyphenated(child.0) + what@,
{
    let mut message = "branch ".to_owned();
    message.append(child.to_string().as_str());
    message.append(what);
    Failure { message }
}

/// The parent of a branch that may be resolved: one that is there, has a
/// parent and is still open.
pub fn resolvable_parent(child: ConversationId, found: &Option<Conversation>) -> (r: Result<
    ConversationId,
    Failure,
>)
    ensures
        match r {
            Ok(parent) => branch_parent(child, found.deep_view()) == Ok::<
                ConversationId,
                Seq<char>,
            >(parent),
            Err(failure) => branch_parent(child, found.deep_view()) == Err::<
                ConversationId,
                Seq<char>,
            >(failure@),
        },
{
    match found {
        Some(conversation) => match conversation.parent {
            Some(parent) => {
                if conversation.resolved_at.is_some() {
                    Err(branch_failure(child, " is already resolved"))
                } else {
                    Ok(parent)
                }
            },
            None => Err(branch_failure(child, " has no parent")),
        },
        None => Err(branch_failure(child, " not found")),
    }
}

/// The transaction that resolves a branch: the payload goes to the parent,
/// the branch is closed and the parent is current, all at once.
pub fn resolve_branch(
    child: ConversationId,
    parent: ConversationId,
    rows: &Vec<MessageRow>,
    now: Timestamp,
) -> (r: String)
    ensures
        r@ == resolve_text(child, parent, rows.deep_view(), instant_text(now@)),
{
    let now = now.to_string();
    let child_key = child.to_string();
    let parent_key = parent.to_string();
    let mut sql = "BEGIN TRANSACTION;\n".to_owned();
    sql.append(insert_statements(parent, rows).as_str());
    sql.append(touch_statement(parent, now.as_str()).as_str());
    let ghost head = sql@;
    sql.append("UPDATE conversation:`");
    sql.append(child_key.as_str());
    sql.append("` SET resolved_at = '");
    sql.append(now.as_str());
    sql.append("', updated_at = '");
    sql.append(now.as_str());
    sql.append("';\nUPSERT current_conversation:singleton SET current_id = conversation:`");
    sql.append(parent_key.as_str());
    sql.append("`, updated_at = '");
    sql.append(now.as_str());
    sql.append("';\n");
    assert(sql@ =~= head + close_text(child, parent, now@));
    sql.append("COMMIT TRANSACTION;");
    sql
}

// ---------------------------------------------------------------------------
// Reading records
// ---------------------------------------------------------------------------

/// A message that a conversation lists, and how.
#[derive(Debug)]
pub struct ItemRow {
    pub message: MessageId,
    pub item_type: String,
}

/// The entry of a listed message.
pub open spec fn item_of(row: ItemRow) -> ConversationItem {
    if row.item_type@ == "referenced"@ {
        ConversationItem::ReferencedMessage(row.message)
    } else {
        ConversationItem::Message(row.message)
    }
}

/// The keys that rows are ordered by.
pub open spec fn row_keys(rows: Seq<ItemRow>) -> Seq<u128> {
    rows.map_values(|r: ItemRow| r.message.0)
}

/// Whether `items` are the entries of the rows, ordered by message identity,
/// which is the order of creation.
pub open spec fn items_in_order(rows: Seq<ItemRow>, items: Seq<ConversationItem>) -> bool {
    exists|order: Seq<int>| #[trigger]
        ascending_ids(row_keys(rows), order) && items.len() == rows.len() && forall|a: int|
            0 <= a < items.len() ==> items[a] == item_of(rows[#[trigger] order[a]])
}

/// The entries of a conversation, in the order its messages were created.
pub fn list_items(rows: &Vec<ItemRow>) -> (r: Vec<ConversationItem>)
    ensures
        items_in_order(rows@, r@),
{
    let mut keys: Vec<u128> = Vec::new();
    let mut i: usize = 0;
    while i < rows.len()
        invariant
            i <= rows@.len(),
            keys@.len() == i,
            forall|k: int| 0 <= k < i ==> #[trigger] keys@[k] == rows@[k].message.0,
        decreases rows@.len() - i,
    {
        keys.push(rows[i].message.0);
        i += 1;
    }
    assert(keys@ =~= row_keys(rows@));
    let order = order_ids(&keys);
    let mut r: Vec<ConversationItem> = Vec::new();
    let mut a: usize = 0;
    while a < order.len()
        invariant
            a <= order@.len(),
            order@.len() == rows@.len(),
            forall|b: int| 0 <= b < order@.len() ==> (#[trigger] order@[b]) < rows@.len(),
            r@.len() == a,
            forall|b: int|
                0 <= b < a ==> #[trigger] r@[b] == item_of(rows@[positions(order@)[b]]),
        decreases order@.len() - a,
    {
        let row = &rows[order[a]];
        assert(positions(order@)[a as int] == order@[a as int]);
        if same(row.item_type.as_str(), "referenced") {
            r.push(ConversationItem::ReferencedMessage(row.message));
        } else {
            r.push(ConversationItem::Message(row.message));
        }
        a += 1;
    }
    assert(ascending_ids(row_keys(rows@), positions(order@)));
    r
}

/// A conversation as it is stored.
#[derive(Debug)]
pub struct ConversationRecord {
    pub parent: Option<RecordRef>,
    pub summary_content: Option<String>,
    pub summary_created_at: Option<String>,
    pub created_at: String,
    pub updated_at: String,
    pub resolved_at: Option<String>,
}

fn optional_timestamp(text: &Option<String>) -> (r: Result<Option<Timestamp>, Failure>)
    ensures
        match text {
            Some(text) => match parsed_instant(text@) {
                Some(n) => r matches Ok(Some(t)) && t@ == n,
                None => r matches Err(failure) && failure@ == "invalid timestamp"@,
            },
            None => r matches Ok(None),
        },
{
    match text {
        Some(text) => match timestamp_from_string(text.as_str()) {
            Ok(t) => Ok(Some(t)),
            Err(failure) => Err(failure),
        },
        None => Ok(None),
    }
}

/// What an optional stored instant reads as.
pub open spec fn instant_read(text: Option<Seq<char>>) -> Result<Option<int>, Seq<char>> {
    match text {
        Some(text) => match parsed_instant(text) {
            Some(n) => Ok(Some(n as int)),
            None => Err("invalid timestamp"@),
        },
        None => Ok(None),
    }
}

/// What a stored parent reads as.
pub open spec fn parent_read(parent: Option<RecordRef>) -> Result<
    Option<ConversationId>,
    Seq<char>,
> {
    match parent {
        Some(record) => match record@.key {
            Some(key) => match parsed_uuid(key) {
                Some(value) => Ok(Some(ConversationId(value))),
                None => Err("invalid conversation uuid"@),
            },
            None => Err("invalid conversation record key"@),
        },
        None => Ok(None),
    }
}

/// What a stored summary reads as: one with both its parts, or none.
pub open spec fn summary_read(content: Option<Seq<char>>, created_at: Option<Seq<char>>) -> Result<
    Option<SummaryView>,
    Seq<char>,
> {
    match (content, created_at) {
        (Some(content), Some(created_at)) => match parsed_instant(created_at) {
            Some(n) => Ok(Some(SummaryView { content, created_at: n as int })),
            None => Err("invalid timestamp"@),
        },
        _ => Ok(None),
    }
}

/// What a stored conversation reads as. The parts are read one after the
/// other: the parent, the summary, the resolution, and when it was created
/// and updated. The first that cannot be read is the failure.
pub open spec fn conversation_read(
    id: ConversationId,
    record: ConversationRecord,
    items: Seq<ConversationItem>,
) -> Result<ConversationView, Seq<char>> {
    match parent_read(record.parent) {
        Err(e) => Err(e),
        Ok(parent) => match summary_read(
            record.summary_content.deep_view(),
            record.summary_created_at.deep_view(),
        ) {
            Err(e) => Err(e),
            Ok(summary) => match instant_read(record.resolved_at.deep_view()) {
                Err(e) => Err(e),
                Ok(resolved_at) => match (
                    parsed_instant(record.created_at@),
                    parsed_instant(record.updated_at@),
                ) {
                    (Some(created_at), Some(updated_at)) => Ok(
                        ConversationView {
                            id,
                            parent,
                            items,
                            summary,
                            created_at: created_at as int,
                            updated_at: updated_at as int,
                            resolved_at,
                        },
                    ),
                    _ => Err("invalid timestamp"@),
                },
            },
        },
    }
}

/// The conversation that a record and its entries make up.
pub fn conversation_from_record(
    id: ConversationId,
    record: ConversationRecord,
    items: Vec<ConversationItem>,
) -> (r: Result<Conversation, Failure>)
    ensures
        match r {
            Ok(conversation) => conversation_read(id, record, items@) == Ok::<
                ConversationView,
                Seq<char>,
            >(conversation@),
            Err(failure) => conversation_read(id, record, items@) == Err::<
                ConversationView,
                Seq<char>,
            >(failure@),
        },
{
    let parent = match &record.parent {
        Some(parent) => match parse_conversation_id(parent) {
            Ok(parent) => Some(parent),
            Err(failure) => {
                return Err(failure);
            },
        },
        None => None,
    };
    let summary = match (&record.summary_content, &record.summary_created_at) {
        (Some(content), Some(created_at)) => match timestamp_from_string(created_at.as_str()) {
            Ok(created_at) => Some(Summary { content: content.clone(), created_at }),
            Err(failure) => {
                return Err(failure);
            },
        },
        _ => None,
    };
    let resolved_at = match optional_timestamp(&record.resolved_at) {
        Ok(resolved_at) => resolved_at,
        Err(failure) => {
            return Err(failure);
        },
    };
    let created_at = match timestamp_from_string(record.created_at.as_str()) {
        Ok(t) => t,
        Err(failure) => {
            return Err(failure);
        },
    };
    let updated_at = match timestamp_from_string(record.updated_at.as_str()) {
        Ok(t) => t,
        Err(failure) => {
            return Err(failure);
        },
    };
    Ok(Conversation { id, parent, items, summary, created_at, updated_at, resolved_at })
}

/// The message that a record makes up, with its content read.
pub fn message_from_record(
    id: MessageId,
    role: &str,
    content: Vec<Content>,
    timestamp: &str,
) -> (r: Result<Message, Failure>)
    ensures
        match parsed_instant(timestamp@) {
            Some(n) => r matches Ok(m) && m@ == (MessageView {
                id,
                role: role_of(role@),
                content: content.deep_view(),
                timestamp: n as int,
            }),
            None => r matches Err(failure) && failure@ == "invalid timestamp"@,
        },
{
    match timestamp_from_string(timestamp) {
        Ok(timestamp) => Ok(Message { id, role: role_from_word(role), content, timestamp }),
        Err(failure) => Err(failure),
    }
}

// ---------------------------------------------------------------------------
// Searches
// ---------------------------------------------------------------------------

/// The query for similar conversations.
pub open spec fn search_text(k: nat, excluding: bool) -> Seq<char> {
    "SELECT id, vector::similarity::cosine(summary_embedding, $query) AS score FROM conversation WHERE summary_embedding IS NOT NULL AND summary_embedding <|"@
        + numeral(k) + if excluding {
        ", 150|> $query AND id != $exclude ORDER BY score DESC"@
    } else {
        ", 150|> $query ORDER BY score DESC"@
    }
}

/// The query for the `k` most similar conversations, with or without one that
/// is left out.
pub fn search_query(k: usize, excluding: bool) -> (r: String)
    ensures
        r@ == search_text(k as nat, excluding),
{
    let mut sql = "SELECT id, vector::similarity::cosine(summary_embedding, $query) AS score FROM conversation WHERE summary_embedding IS NOT NULL AND summary_embedding <|".to_owned();
    sql.append(decimal(k as u64).as_str());
    if excluding {
        sql.append(", 150|> $query AND id != $exclude ORDER BY score DESC");
    } else {
        sql.append(", 150|> $query ORDER BY score DESC");
    }
    sql
}

/// The query for similar tools.
pub open spec fn tool_search_text(k: nat) -> Seq<char> {
    "SELECT name, vector::similarity::cosine(embedding, $query) AS score FROM tool WHERE embedding IS NOT NULL AND embedding <|"@
        + numeral(k) + ", 150|> $query ORDER BY score DESC"@
}

/// The query for the `k` most similar tools, or none where none are wanted.
pub fn tool_search_query(k: usize) -> (r: Option<String>)
    ensures
        if k == 0 {
            r is None
        } else {
            r matches Some(sql) && sql@ == tool_search_text(k as nat)
        },
{
    if k == 0 {
        return None;
    }
    let mut sql = "SELECT name, vector::similarity::cosine(embedding, $query) AS score FROM tool WHERE embedding IS NOT NULL AND embedding <|".to_owned();
    sql.append(decimal(k as u64).as_str());
    sql.append(", 150|> $query ORDER BY score DESC");
    Some(sql)
}

} // verus!
