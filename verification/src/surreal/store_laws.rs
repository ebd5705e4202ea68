//! What the transactions do: each is the text of a program, and the effect of
//! the program on a store is that of the store's own operation.

use vstd::prelude::*;

use crate::conversation_store::{fresh, law_resolved_branch_delivers_to_its_parent, StoreView};
use crate::identity::hyphenated;
use crate::models::conversation::{ConversationId, ConversationItem, ConversationView};
use crate::models::message::{ContentView, MessageId, MessageView};
use crate::surreal::store::{
    append_text, branch_parent, conversation_read, conversation_record, escaped, insert_text,
    inserts_text, item_of, items_in_order, law_escaped_text_reads_back, literal_value,
    message_record, resolve_text, row_keys, search_text, touch_text, tool_search_text,
    ConversationRecord, ItemRow, MessageRowView,
};
use crate::text::numeral;
use crate::time::{instant_text, parsed_instant};

verus! {

// ---------------------------------------------------------------------------
// Programs
// ---------------------------------------------------------------------------

/// A statement of a transaction.
pub enum Statement {
    /// A message, with its content as it is written.
    Create { row: MessageRowView },
    /// An edge that lists a message last in a conversation.
    Relate { conversation: ConversationId, message: MessageId },
    Touch { conversation: ConversationId, now: int },
    Close { conversation: ConversationId, now: int },
    SetCurrent { conversation: ConversationId, now: int },
}

/// A value as a single-quoted literal.
pub open spec fn quoted(value: Seq<char>) -> Seq<char> {
    "'"@ + escaped(value) + "'"@
}

/// The text of a statement.
pub open spec fn printed(statement: Statement) -> Seq<char> {
    match statement {
        Statement::Create { row } => "CREATE message:`"@ + hyphenated(row.id.0)
            + "` SET role = '"@ + row.role.word() + "', content = "@ + quoted(row.content)
            + ", timestamp = '"@ + instant_text(row.timestamp) + "';\n"@,
        Statement::Relate { conversation, message } => "RELATE conversation:`"@ + hyphenated(
            conversation.0,
        ) + "`->conversation_item->message:`"@ + hyphenated(message.0)
            + "` SET item_type = 'message';\n"@,
        Statement::Touch { conversation, now } => "UPDATE conversation:`"@ + hyphenated(
            conversation.0,
        ) + "` SET updated_at = '"@ + instant_text(now) + "';\n"@,
        Statement::Close { conversation, now } => "UPDATE conversation:`"@ + hyphenated(
            conversation.0,
        ) + "` SET resolved_at = '"@ + instant_text(now) + "', updated_at = '"@ + instant_text(now)
            + "';\n"@,
        Statement::SetCurrent { conversation, now } =>
            "UPSERT current_conversation:singleton SET current_id = conversation:`"@ + hyphenated(
            conversation.0,
        ) + "`, updated_at = '"@ + instant_text(now) + "';\n"@,
    }
}

/// The text of statements, one after the other.
pub open spec fn printed_all(program: Seq<Statement>) -> Seq<char>
    decreases program.len(),
{
    if program.len() == 0 {
        Seq::empty()
    } else {
        printed_all(program.drop_last()) + printed(program.last())
    }
}

/// The text of a transaction.
pub open spec fn transaction(program: Seq<Statement>) -> Seq<char> {
    "BEGIN TRANSACTION;\n"@ + printed_all(program) + "COMMIT TRANSACTION;"@
}

/// The message that a row makes up, given what a content is written from.
pub open spec fn message_of(
    row: MessageRowView,
    read: spec_fn(Seq<char>) -> Seq<ContentView>,
) -> MessageView {
    MessageView {
        id: row.id,
        role: row.role,
        content: read(row.content),
        timestamp: row.timestamp,
    }
}

/// What a statement does to a store. A statement about a conversation that is
/// not there does nothing.
pub open spec fn effect(
    store: StoreView,
    statement: Statement,
    read: spec_fn(Seq<char>) -> Seq<ContentView>,
) -> StoreView {
    match statement {
        Statement::Create { row } => StoreView {
            messages: store.messages.insert(row.id.0, message_of(row, read)),
            ..store
        },
        Statement::Relate { conversation, message } => if store.conversations.contains_key(
            conversation.0,
        ) {
            let c = store.conversations[conversation.0];
            StoreView {
                conversations: store.conversations.insert(
                    conversation.0,
                    ConversationView {
                        items: c.items.push(ConversationItem::Message(message)),
                        ..c
                    },
                ),
                ..store
            }
        } else {
            store
        },
        Statement::Touch { conversation, now } => if store.conversations.contains_key(
            conversation.0,
        ) {
            let c = store.conversations[conversation.0];
            StoreView {
                conversations: store.conversations.insert(
                    conversation.0,
                    ConversationView { updated_at: now, ..c },
                ),
                ..store
            }
        } else {
            store
        },
        Statement::Close { conversation, now } => if store.conversations.contains_key(
            conversation.0,
        ) {
            let c = store.conversations[conversation.0];
            StoreView {
                conversations: store.conversations.insert(
                    conversation.0,
                    ConversationView { resolved_at: Some(now), updated_at: now, ..c },
                ),
                ..store
            }
        } else {
            store
        },
        Statement::SetCurrent { conversation, now } => StoreView {
            current: Some(conversation),
            ..store
        },
    }
}

/// What statements do to a store, one after the other.
pub open spec fn effects(
    store: StoreView,
    program: Seq<Statement>,
    read: spec_fn(Seq<char>) -> Seq<ContentView>,
) -> StoreView
    decreases program.len(),
{
    if program.len() == 0 {
        store
    } else {
        effect(effects(store, program.drop_last(), read), program.last(), read)
    }
}

/// The program that writes messages and lists each of them in a conversation.
pub open spec fn writes(conversation: ConversationId, rows: Seq<MessageRowView>) -> Seq<Statement>
    decreases rows.len(),
{
    if rows.len() == 0 {
        Seq::empty()
    } else {
        writes(conversation, rows.drop_last()).push(Statement::Create { row: rows.last() }).push(
            Statement::Relate { conversation, message: rows.last().id },
        )
    }
}

/// The program that appends messages to a conversation.
pub open spec fn appends(
    conversation: ConversationId,
    rows: Seq<MessageRowView>,
    now: int,
) -> Seq<Statement> {
    writes(conversation, rows).push(Statement::Touch { conversation, now })
}

/// The program that resolves a branch.
pub open spec fn resolves(
    child: ConversationId,
    parent: ConversationId,
    rows: Seq<MessageRowView>,
    now: int,
) -> Seq<Statement> {
    appends(parent, rows, now).push(Statement::Close { conversation: child, now }).push(
        Statement::SetCurrent { conversation: parent, now },
    )
}

// ---------------------------------------------------------------------------
// What the programs print
// ---------------------------------------------------------------------------

proof fn lemma_push(program: Seq<Statement>, last: Statement)
    ensures
        printed_all(program.push(last)) == printed_all(program) + printed(last),
{
    assert(program.push(last).drop_last() =~= program);
}

proof fn lemma_insert_text(conversation: ConversationId, row: MessageRowView)
    ensures
        insert_text(conversation, row) == printed(Statement::Create { row }) + printed(
            Statement::Relate { conversation, message: row.id },
        ),
{
    reveal_strlit("', content = '");
    reveal_strlit("', content = ");
    reveal_strlit("'");
    reveal_strlit("', timestamp = '");
    reveal_strlit(", timestamp = '");
    reveal_strlit("';\nRELATE conversation:`");
    reveal_strlit("';\n");
    reveal_strlit("RELATE conversation:`");
    assert("', content = '"@ =~= "', content = "@ + "'"@);
    assert("', timestamp = '"@ =~= "'"@ + ", timestamp = '"@);
    assert("';\nRELATE conversation:`"@ =~= "';\n"@ + "RELATE conversation:`"@);
    assert(insert_text(conversation, row) =~= printed(Statement::Create { row }) + printed(
        Statement::Relate { conversation, message: row.id },
    ));
}

proof fn lemma_inserts_text(conversation: ConversationId, rows: Seq<MessageRowView>)
    ensures
        inserts_text(conversation, rows) == printed_all(writes(conversation, rows)),
    decreases rows.len(),
{
    if rows.len() > 0 {
        let front = writes(conversation, rows.drop_last());
        let create = Statement::Create { row: rows.last() };
        let relate = Statement::Relate { conversation, message: rows.last().id };
        lemma_inserts_text(conversation, rows.drop_last());
        lemma_insert_text(conversation, rows.last());
        lemma_push(front, create);
        lemma_push(front.push(create), relate);
        assert(printed_all(front) + (printed(create) + printed(relate)) =~= printed_all(front)
            + printed(create) + printed(relate));
    }
}

proof fn lemma_appends_text(
    conversation: ConversationId,
    rows: Seq<MessageRowView>,
    now: int,
)
    ensures
        inserts_text(conversation, rows) + touch_text(conversation, instant_text(now))
            == printed_all(appends(conversation, rows, now)),
{
    lemma_inserts_text(conversation, rows);
    lemma_push(writes(conversation, rows), Statement::Touch { conversation, now });
    assert(touch_text(conversation, instant_text(now)) =~= printed(
        Statement::Touch { conversation, now },
    ));
}

// ---------------------------------------------------------------------------
// What the programs do
// ---------------------------------------------------------------------------

/// A store with a conversation marked as updated.
pub open spec fn touched(store: StoreView, id: ConversationId, now: int) -> StoreView {
    effect(store, Statement::Touch { conversation: id, now }, |text: Seq<char>| Seq::empty())
}

/// The messages that rows make up.
pub open spec fn messages_of(
    rows: Seq<MessageRowView>,
    read: spec_fn(Seq<char>) -> Seq<ContentView>,
) -> Seq<MessageView> {
    rows.map_values(|row: MessageRowView| message_of(row, read))
}

proof fn lemma_effects_push(
    store: StoreView,
    program: Seq<Statement>,
    last: Statement,
    read: spec_fn(Seq<char>) -> Seq<ContentView>,
)
    ensures
        effects(store, program.push(last), read) == effect(
            effects(store, program, read),
            last,
            read,
        ),
{
    assert(program.push(last).drop_last() =~= program);
}

proof fn lemma_writes_effect(
    store: StoreView,
    conversation: ConversationId,
    rows: Seq<MessageRowView>,
    now: int,
    read: spec_fn(Seq<char>) -> Seq<ContentView>,
)
    ensures
        touched(effects(store, writes(conversation, rows), read), conversation, now) == touched(
            store.append_all(conversation, messages_of(rows, read), now),
            conversation,
            now,
        ),
    decreases rows.len(),
{
    if rows.len() > 0 {
        let front = rows.drop_last();
        let row = rows.last();
        let create = Statement::Create { row };
        let relate = Statement::Relate { conversation, message: row.id };
        lemma_writes_effect(store, conversation, front, now, read);
        let program = writes(conversation, front);
        lemma_effects_push(store, program, create, read);
        lemma_effects_push(store, program.push(create), relate, read);
        assert(messages_of(rows, read).drop_last() =~= messages_of(front, read));
        assert(messages_of(rows, read).last() == message_of(row, read));
        let a = effects(store, program, read);
        let b = store.append_all(conversation, messages_of(front, read), now);
        let a2 = effects(store, writes(conversation, rows), read);
        let b2 = store.append_all(conversation, messages_of(rows, read), now);
        let ta = touched(a, conversation, now);
        let tb = touched(b, conversation, now);
        assert(ta == tb);
        assert(ta.messages == a.messages && tb.messages == b.messages);
        assert(ta.current == a.current && tb.current == b.current);
        let k = conversation.0;
        assert(ta.conversations.contains_key(k) == a.conversations.contains_key(k));
        assert(tb.conversations.contains_key(k) == b.conversations.contains_key(k));
        if a.conversations.contains_key(k) {
            assert(ta.conversations[k].items == a.conversations[k].items);
            assert(tb.conversations[k].items == b.conversations[k].items);
            assert(ta.conversations[k] == tb.conversations[k]);
        }
        assert(touched(a2, conversation, now).conversations =~= touched(
            b2,
            conversation,
            now,
        ).conversations) by {
            assert forall|x: u128| #[trigger]
                touched(a2, conversation, now).conversations.contains_key(x) == touched(
                    b2,
                    conversation,
                    now,
                ).conversations.contains_key(x) by {
                assert(ta.conversations.contains_key(x) == tb.conversations.contains_key(x));
            }
            assert forall|x: u128| #[trigger]
                touched(a2, conversation, now).conversations.contains_key(x) implies touched(
                a2,
                conversation,
                now,
            ).conversations[x] == touched(b2, conversation, now).conversations[x] by {
                assert(ta.conversations[x] == tb.conversations[x]);
            }
        }
        assert(touched(a2, conversation, now).messages =~= touched(
            b2,
            conversation,
            now,
        ).messages);
    }
}

proof fn lemma_appends_effect(
    store: StoreView,
    conversation: ConversationId,
    rows: Seq<MessageRowView>,
    now: int,
    read: spec_fn(Seq<char>) -> Seq<ContentView>,
)
    ensures
        effects(store, appends(conversation, rows, now), read) == touched(
            store.append_all(conversation, messages_of(rows, read), now),
            conversation,
            now,
        ),
{
    lemma_writes_effect(store, conversation, rows, now, read);
    let touch = Statement::Touch { conversation, now };
    lemma_effects_push(store, writes(conversation, rows), touch, read);
}

/// The transaction that appends messages does to a store what appending them
/// does: each is stored as it was given and listed in its place, behind what
/// the conversation lists, and the conversation counts as updated.
pub proof fn law_append_transaction_appends(
    store: StoreView,
    conversation: ConversationId,
    rows: Seq<MessageRowView>,
    now: int,
    read: spec_fn(Seq<char>) -> Seq<ContentView>,
)
    requires
        rows.len() > 0,
    ensures
        exists|program: Seq<Statement>|
            append_text(conversation, rows, instant_text(now)) == #[trigger] transaction(program)
                && effects(store, program, read) == store.append_all(
                conversation,
                messages_of(rows, read),
                now,
            ),
{
    let program = appends(conversation, rows, now);
    lemma_appends_text(conversation, rows, now);
    lemma_appends_effect(store, conversation, rows, now, read);
    assert(append_text(conversation, rows, instant_text(now)) =~= transaction(program));
    let after = store.append_all(conversation, messages_of(rows, read), now);
    assert(touched(after, conversation, now) == after) by {
        assert(touched(after, conversation, now).conversations =~= after.conversations);
    }
}

/// The transaction that resolves a branch does to a store what resolving the
/// branch does: the payload is stored and listed last in the parent, the
/// branch is closed, and the parent is current. The parent counts as updated
/// even where there is no payload.
pub proof fn law_resolve_transaction_resolves(
    store: StoreView,
    child: ConversationId,
    parent: ConversationId,
    rows: Seq<MessageRowView>,
    now: int,
    read: spec_fn(Seq<char>) -> Seq<ContentView>,
)
    ensures
        exists|program: Seq<Statement>|
            resolve_text(child, parent, rows, instant_text(now)) == #[trigger] transaction(program)
                && effects(store, program, read) == touched(
                store.resolve(child, parent, messages_of(rows, read), now),
                parent,
                now,
            ),
{
    let program = resolves(child, parent, rows, now);
    let start = appends(parent, rows, now);
    let close = Statement::Close { conversation: child, now };
    let current = Statement::SetCurrent { conversation: parent, now };
    lemma_resolve_text(child, parent, rows, now);
    lemma_appends_effect(store, parent, rows, now, read);
    lemma_effects_push(store, start, close, read);
    lemma_effects_push(store, start.push(close), current, read);
    let delivered = store.append_all(parent, messages_of(rows, read), now);
    let after = effects(store, program, read);
    let wanted = touched(store.resolve(child, parent, messages_of(rows, read), now), parent, now);
    assert(after == effect(effect(touched(delivered, parent, now), close, read), current, read));
    assert(after.conversations =~= wanted.conversations);
    assert(after =~= wanted);
}

proof fn lemma_resolve_text(
    child: ConversationId,
    parent: ConversationId,
    rows: Seq<MessageRowView>,
    now: int,
)
    ensures
        resolve_text(child, parent, rows, instant_text(now)) == transaction(
            resolves(child, parent, rows, now),
        ),
{
    let start = appends(parent, rows, now);
    let close = Statement::Close { conversation: child, now };
    let current = Statement::SetCurrent { conversation: parent, now };
    lemma_appends_text(parent, rows, now);
    lemma_push(start, close);
    lemma_push(start.push(close), current);
    reveal_strlit("';\nUPSERT current_conversation:singleton SET current_id = conversation:`");
    reveal_strlit("';\n");
    reveal_strlit("UPSERT current_conversation:singleton SET current_id = conversation:`");
    assert("';\nUPSERT current_conversation:singleton SET current_id = conversation:`"@
        =~= "';\n"@
        + "UPSERT current_conversation:singleton SET current_id = conversation:`"@);
    assert(resolve_text(child, parent, rows, instant_text(now)) =~= transaction(
        resolves(child, parent, rows, now),
    ));
}

/// Whether a statement lists a message in a conversation.
pub open spec fn lists_in(statement: Statement, id: ConversationId) -> bool {
    statement matches Statement::Relate { conversation, .. } && conversation == id
}

proof fn lemma_writes_list_in(conversation: ConversationId, rows: Seq<MessageRowView>)
    ensures
        writes(conversation, rows).len() == 2 * rows.len(),
        forall|i: int|
            0 <= i < rows.len() ==> #[trigger] writes(conversation, rows)[2 * i + 1]
                == (Statement::Relate { conversation, message: rows[i].id }),
        forall|j: int|
            0 <= j < writes(conversation, rows).len() && (#[trigger] writes(
                conversation,
                rows,
            )[j] is Relate) ==> lists_in(writes(conversation, rows)[j], conversation),
    decreases rows.len(),
{
    if rows.len() > 0 {
        lemma_writes_list_in(conversation, rows.drop_last());
        let front = writes(conversation, rows.drop_last());
        let all = writes(conversation, rows);
        assert forall|i: int| 0 <= i < rows.len() implies #[trigger] all[2 * i + 1] == (
        Statement::Relate { conversation, message: rows[i].id }) by {
            if i < rows.len() - 1 {
                assert(all[2 * i + 1] == front[2 * i + 1]);
            }
        }
        assert forall|j: int| 0 <= j < all.len() && (#[trigger] all[j] is Relate) implies lists_in(
            all[j],
            conversation,
        ) by {
            if j < front.len() {
                assert(all[j] == front[j]);
            }
        }
    }
}

/// Resolving a branch lists every message of the payload in the parent, and no
/// message in the branch or anywhere else.
pub proof fn law_payload_is_listed_in_the_parent_alone(
    child: ConversationId,
    parent: ConversationId,
    rows: Seq<MessageRowView>,
    now: int,
)
    ensures
        exists|program: Seq<Statement>|
            {
                &&& resolve_text(child, parent, rows, instant_text(now)) == #[trigger] transaction(
                    program,
                )
                &&& forall|i: int|
                    0 <= i < rows.len() ==> program.contains(
                        Statement::Relate { conversation: parent, message: (#[trigger] rows[i]).id },
                    )
                &&& forall|j: int|
                    0 <= j < program.len() && (#[trigger] program[j] is Relate) ==> lists_in(
                        program[j],
                        parent,
                    )
            },
{
    let program = resolves(child, parent, rows, now);
    lemma_resolve_text(child, parent, rows, now);
    lemma_writes_list_in(parent, rows);
    let front = writes(parent, rows);
    assert forall|i: int| 0 <= i < rows.len() implies program.contains(
        Statement::Relate { conversation: parent, message: (#[trigger] rows[i]).id },
    ) by {
        assert(program[2 * i + 1] == front[2 * i + 1]);
    }
    assert forall|j: int|
        0 <= j < program.len() && (#[trigger] program[j] is Relate) implies lists_in(
        program[j],
        parent,
    ) by {
        if j < front.len() {
            assert(program[j] == front[j]);
        }
    }
}

/// After a branch is resolved with messages that are new to the parent, the
/// parent lists them last, the branch lists what it did, is closed, and the
/// parent is current.
pub proof fn law_resolve_transaction_delivers_to_the_parent(
    store: StoreView,
    child: ConversationId,
    parent: ConversationId,
    rows: Seq<MessageRowView>,
    now: int,
    read: spec_fn(Seq<char>) -> Seq<ContentView>,
)
    requires
        store.open_parent(child) == Some(parent),
        store.has(parent),
        parent != child,
        fresh(store, parent, messages_of(rows, read)),
        fresh(store, child, messages_of(rows, read)),
    ensures
        exists|program: Seq<Statement>|
            {
                let after = effects(store, program, read);
                &&& resolve_text(child, parent, rows, instant_text(now)) == #[trigger] transaction(
                    program,
                )
                &&& after.list(parent) == store.list(parent) + messages_of(rows, read)
                &&& after.list(child) == store.list(child)
                &&& after.conversation(child).resolved_at == Some(now)
                &&& after.current == Some(parent)
            },
{
    law_resolve_transaction_resolves(store, child, parent, rows, now, read);
    law_resolved_branch_delivers_to_its_parent(
        store,
        child,
        parent,
        messages_of(rows, read),
        now,
    );
    let program = choose|program: Seq<Statement>|
        resolve_text(child, parent, rows, instant_text(now)) == #[trigger] transaction(program)
            && effects(store, program, read) == touched(
            store.resolve(child, parent, messages_of(rows, read), now),
            parent,
            now,
        );
    let done = store.resolve(child, parent, messages_of(rows, read), now);
    let after = effects(store, program, read);
    assert(after == touched(done, parent, now));
    assert(after.list(parent) == done.list(parent));
    assert(after.list(child) == done.list(child));
}

/// What a literal of a statement holds is the value it was printed from.
pub proof fn law_quoted_value_reads_back(value: Seq<char>)
    ensures
        quoted(value).len() >= 2,
        quoted(value)[0] == '\'',
        quoted(value).last() == '\'',
        literal_value(quoted(value).subrange(1, quoted(value).len() - 1)) == Some(value),
{
    reveal_strlit("'");
    law_escaped_text_reads_back(value);
    assert(quoted(value).subrange(1, quoted(value).len() - 1) =~= escaped(value));
}

// ---------------------------------------------------------------------------
// Records
// ---------------------------------------------------------------------------

/// The records of conversations and messages are in tables of their own, under
/// the text of their identity.
pub proof fn law_records_are_found_by_identity(c: ConversationId, m: MessageId)
    ensures
        conversation_record(c).table == "conversation"@,
        conversation_record(c).key == Some(hyphenated(c.0)),
        message_record(m).table == "message"@,
        message_record(m).key == Some(hyphenated(m.0)),
{
}

/// A branch may be resolved into its parent exactly if it is there, has a
/// parent and is open; a refusal names the branch.
pub proof fn law_only_open_branches_are_resolved(
    store: StoreView,
    child: ConversationId,
    parent: ConversationId,
)
    ensures
        ({
            let found = if store.has(child) {
                Some(store.conversation(child))
            } else {
                None
            };
            branch_parent(child, found) == Ok::<ConversationId, Seq<char>>(parent)
                <==> store.open_parent(child) == Some(parent)
        }),
{
}

/// A branch that cannot be resolved is named, with what stands against it.
pub proof fn law_refusal_names_the_branch(child: ConversationId, found: ConversationView)
    ensures
        branch_parent(child, None) == Err::<ConversationId, Seq<char>>(
            "branch "@ + hyphenated(child.0) + " not found"@,
        ),
        found.parent is None ==> branch_parent(child, Some(found)) == Err::<
            ConversationId,
            Seq<char>,
        >("branch "@ + hyphenated(child.0) + " has no parent"@),
        found.parent is Some && found.resolved_at is Some ==> branch_parent(child, Some(found))
            == Err::<ConversationId, Seq<char>>(
            "branch "@ + hyphenated(child.0) + " is already resolved"@,
        ),
{
}

/// A stored time that cannot be read is a failure, and so is a parent that
/// names no conversation; a summary without its time is none.
pub proof fn law_unreadable_record_is_a_failure(
    id: ConversationId,
    record: ConversationRecord,
    items: Seq<ConversationItem>,
)
    ensures
        parsed_instant(record.created_at@) is None || parsed_instant(record.updated_at@) is None
            ==> conversation_read(id, record, items) is Err,
        record.resolved_at is Some && parsed_instant(record.resolved_at->0@) is None
            ==> conversation_read(id, record, items) is Err,
        record.parent is Some && record.parent->0@.key is None ==> conversation_read(
            id,
            record,
            items,
        ) is Err,
        (conversation_read(id, record, items) matches Ok(c) && record.summary_created_at is None)
            ==> conversation_read(id, record, items)->Ok_0.summary is None,
        conversation_read(id, record, items) is Ok ==> {
            let c = conversation_read(id, record, items)->Ok_0;
            &&& c.id == id
            &&& c.items == items
            &&& c.parent is Some <==> record.parent is Some
            &&& c.resolved_at is Some <==> record.resolved_at is Some
        },
{
}

/// A conversation that was stored reads back as it was: with its parent, its
/// summary, its times and its entries.
pub proof fn law_stored_conversation_reads_back(
    conversation: ConversationView,
    record: ConversationRecord,
)
    requires
        match conversation.parent {
            Some(parent) => record.parent matches Some(r) && r@ == conversation_record(parent)
                && crate::identity::parsed_uuid(hyphenated(parent.0)) == Some(parent.0),
            None => record.parent is None,
        },
        match conversation.summary {
            Some(summary) => record.summary_content matches Some(content) && content@
                == summary.content && record.summary_created_at is Some && (parsed_instant(
                record.summary_created_at->0@,
            ) matches Some(n) && n == summary.created_at),
            None => record.summary_content is None,
        },
        match conversation.resolved_at {
            Some(at) => record.resolved_at is Some && (parsed_instant(record.resolved_at->0@)
                matches Some(n) && n == at),
            None => record.resolved_at is None,
        },
        parsed_instant(record.created_at@) matches Some(n) && n == conversation.created_at,
        parsed_instant(record.updated_at@) matches Some(n) && n == conversation.updated_at,
    ensures
        conversation_read(conversation.id, record, conversation.items) == Ok::<
            ConversationView,
            Seq<char>,
        >(conversation),
{
    let read = conversation_read(conversation.id, record, conversation.items);
    assert(read is Ok);
    assert(read->Ok_0 =~= conversation);
}

/// A row says how its message is listed: one of the type `referenced` as a
/// shared one, one of the type `message` as one of the conversation's own.
pub proof fn law_row_type_tells_how_a_message_is_listed(row: ItemRow)
    ensures
        row.item_type@ == "referenced"@ ==> item_of(row) == ConversationItem::ReferencedMessage(
            row.message,
        ),
        row.item_type@ == "message"@ ==> item_of(row) == ConversationItem::Message(row.message),
{
    reveal_strlit("referenced");
    reveal_strlit("message");
    assert("referenced"@.len() != "message"@.len());
}

/// Every row is an entry, and the entries are in the order of their messages'
/// identities.
pub proof fn law_entries_are_in_order(rows: Seq<ItemRow>, items: Seq<ConversationItem>)
    requires
        items_in_order(rows, items),
    ensures
        items.len() == rows.len(),
        forall|a: int, b: int|
            0 <= a < b < items.len() ==> (#[trigger] items[a]).target().0 <= (
            #[trigger] items[b]).target().0,
        forall|i: int|
            0 <= i < rows.len() ==> exists|a: int|
                0 <= a < items.len() && #[trigger] items[a] == item_of(#[trigger] rows[i]),
{
    let order = choose|order: Seq<int>| #[trigger]
        crate::order::ascending_ids(row_keys(rows), order) && items.len() == rows.len()
            && forall|a: int| 0 <= a < items.len() ==> items[a] == item_of(rows[#[trigger] order[a]]);
    assert forall|a: int, b: int| 0 <= a < b < items.len() implies (#[trigger] items[a]).target().0
        <= (#[trigger] items[b]).target().0 by {
        assert(crate::order::id_before(row_keys(rows), order[a], order[b]));
        assert(items[a] == item_of(rows[order[a]]));
        assert(items[b] == item_of(rows[order[b]]));
    }
    assert forall|i: int| 0 <= i < rows.len() implies exists|a: int|
        0 <= a < items.len() && #[trigger] items[a] == item_of(#[trigger] rows[i]) by {
        crate::order::lemma_ids_covered(row_keys(rows), order, i);
        let a = choose|a: int| 0 <= a < order.len() && order[a] == i;
        assert(items[a] == item_of(rows[order[a]]));
    }
}

// ---------------------------------------------------------------------------
// Searches
// ---------------------------------------------------------------------------

/// A search asks for `k` conversations, best first, and leaves one out exactly
/// if it is told to.
pub proof fn law_search_asks_for_the_best(k: nat)
    ensures
        search_text(k, false)
            == "SELECT id, vector::similarity::cosine(summary_embedding, $query) AS score FROM conversation WHERE summary_embedding IS NOT NULL AND summary_embedding <|"@
            + numeral(k) + ", 150|> $query ORDER BY score DESC"@,
        search_text(k, true)
            == "SELECT id, vector::similarity::cosine(summary_embedding, $query) AS score FROM conversation WHERE summary_embedding IS NOT NULL AND summary_embedding <|"@
            + numeral(k) + ", 150|> $query AND id != $exclude ORDER BY score DESC"@,
        tool_search_text(k)
            == "SELECT name, vector::similarity::cosine(embedding, $query) AS score FROM tool WHERE embedding IS NOT NULL AND embedding <|"@
            + numeral(k) + ", 150|> $query ORDER BY score DESC"@,
{
}

} // verus!
