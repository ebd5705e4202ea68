//! What the terminal client shows and does, in terms of the keys and the
//! progress it is told of.

use vstd::prelude::*;

use crate::cli::{
    after_chunks, after_event, after_key, asks, conversation_status, half_depth, inside,
    law_streaming_shows_what_came_in, line_width, markdown_spans, piece_lines, pieces_lines,
    pieces_text, row_shown, rows, screen_text, setting, shallow, shown_messages, text_size,
    transcript, wrapped, Action, AppEvent, AppView, DisplayMessageView, Key, PieceView,
    MAX_LIST_DEPTH,
};
use crate::identity::hyphenated;
use crate::models::conversation::ConversationView;
use crate::models::message::{text_of, MessageView, Role};
use crate::text::{is_white, lines_of, trimmed};
use crate::text_laws::law_trimming_takes_the_white_space_at_the_ends;

verus! {

// ---------------------------------------------------------------------------
// What is shown
// ---------------------------------------------------------------------------

/// A setting that is given counts, and its default where it is not.
pub proof fn law_given_setting_counts(value: String, default: Seq<char>)
    ensures
        setting(Some(value), default) == value@,
        setting(None, default) == default,
{
}

/// A conversation is shown message by message, each in its role and with what
/// it says; a message that says nothing is not shown.
pub proof fn law_messages_that_say_something_are_shown(
    messages: Seq<MessageView>,
    last: MessageView,
)
    ensures
        shown_messages(Seq::empty()).len() == 0,
        text_of(last.content).len() == 0 ==> shown_messages(messages.push(last)) == shown_messages(
            messages,
        ),
        text_of(last.content).len() > 0 ==> {
            let now = shown_messages(messages.push(last));
            &&& now.len() == shown_messages(messages).len() + 1
            &&& now.drop_last() == shown_messages(messages)
            &&& now.last().role == last.role
            &&& now.last().content == text_of(last.content)
        },
{
    assert(messages.push(last).drop_last() =~= messages);
    if text_of(last.content).len() > 0 {
        assert(shown_messages(messages.push(last)).drop_last() =~= shown_messages(messages));
    }
}

/// The status names the conversation and tells whether it has a summary.
pub proof fn law_status_names_the_conversation(conversation: ConversationView)
    ensures
        conversation.summary is Some ==> conversation_status(conversation) == "ConversationId("@
            + hyphenated(conversation.id.0) + ") with summary"@,
        conversation.summary is None ==> conversation_status(conversation) == "ConversationId("@
            + hyphenated(conversation.id.0) + ")"@,
{
}

/// A message that was sent is shown last, as the user's, and the answer to it
/// begins with nothing; what was shown before stays.
pub proof fn law_sent_message_is_shown(app: AppView, text: String)
    ensures
        ({
            let now = after_event(app, AppEvent::UserMessage(text));
            &&& now.messages.len() == app.messages.len() + 1
            &&& now.messages.drop_last() == app.messages
            &&& now.messages.last().role == Role::User
            &&& now.messages.last().content == text@
            &&& now.streaming == Some(Seq::<char>::empty())
            &&& now.status == "Thinking..."@
            &&& now.scroll == 65535
            &&& now.input == app.input
        }),
{
    let now = after_event(app, AppEvent::UserMessage(text));
    assert(now.messages.drop_last() =~= app.messages);
}

/// A piece of an answer is shown behind what came before it, and changes
/// nothing else but where the transcript is scrolled to; without an answer
/// under way it is not shown.
pub proof fn law_piece_is_shown_behind_the_others(app: AppView, piece: String)
    ensures
        ({
            let now = after_event(app, AppEvent::Chunk(piece));
            &&& app.streaming is Some ==> now.streaming == Some(app.streaming->0 + piece@)
            &&& app.streaming is None ==> now.streaming is None
            &&& now.messages == app.messages
            &&& now.status == app.status
            &&& now.input == app.input
            &&& now.scroll == 65535
        }),
{
}

/// A message that is sent and answered adds exactly the two to what is shown,
/// and leaves no answer under way and the line being typed as it was.
pub proof fn law_turn_adds_question_and_answer(
    app: AppView,
    sent: String,
    pieces: Seq<String>,
    answer: String,
)
    ensures
        ({
            let waiting = after_chunks(after_event(app, AppEvent::UserMessage(sent)), pieces);
            let done = after_event(waiting, AppEvent::Done(answer));
            &&& waiting.streaming == Some(pieces_text(pieces))
            &&& done.messages == app.messages.push(
                DisplayMessageView { role: Role::User, content: sent@ },
            ).push(DisplayMessageView { role: Role::Assistant, content: answer@ })
            &&& done.streaming is None
            &&& done.status == "Ready"@
            &&& done.scroll == 65535
            &&& done.input == app.input
        }),
{
    law_streaming_shows_what_came_in(app, sent, pieces);
    lemma_chunks_keep_input(after_event(app, AppEvent::UserMessage(sent)), pieces);
}

proof fn lemma_chunks_keep_input(app: AppView, pieces: Seq<String>)
    ensures
        after_chunks(app, pieces).input == app.input,
    decreases pieces.len(),
{
    if pieces.len() > 0 {
        lemma_chunks_keep_input(app, pieces.drop_last());
    }
}

/// The text of pieces is their texts, one after the other.
pub proof fn law_pieces_make_up_the_answer(pieces: Seq<String>, last: String)
    ensures
        pieces_text(Seq::empty()).len() == 0,
        pieces_text(pieces.push(last)) == pieces_text(pieces) + last@,
{
    assert(pieces.push(last).drop_last() =~= pieces);
}

/// A failure is told in the status. It ends the answer and takes back nothing
/// that was shown before.
pub proof fn law_failure_is_told(app: AppView, error: String)
    ensures
        ({
            let now = after_event(app, AppEvent::Error(error));
            &&& now.status == "Error: "@ + error@
            &&& now.streaming is None
            &&& now.messages == app.messages
            &&& now.input == app.input
            &&& now.scroll == app.scroll
        }),
{
}

// ---------------------------------------------------------------------------
// Keys
// ---------------------------------------------------------------------------

/// A character that is typed stands last on the line, and backspace takes it
/// back.
pub proof fn law_backspace_takes_back_what_was_typed(app: AppView, c: char, control: bool)
    requires
        !(control && c == 'c'),
    ensures
        ({
            let typed = after_key(app, Key::Char { c, control });
            &&& typed.input == app.input.push(c)
            &&& after_key(typed, Key::Backspace) == app
        }),
        app.input.len() == 0 ==> after_key(app, Key::Backspace) == app,
{
    let typed = after_key(app, Key::Char { c, control });
    assert(typed.input.drop_last() =~= app.input);
    assert(after_key(typed, Key::Backspace) =~= app);
}

/// Enter sends the line without the white space around it and clears it. A
/// line of white space alone is cleared and not sent.
pub proof fn law_enter_sends_the_line(app: AppView, action: Action)
    requires
        asks(app, Key::Enter, action),
    ensures
        after_key(app, Key::Enter).input.len() == 0,
        after_key(app, Key::Enter).messages == app.messages,
        (exists|i: int| 0 <= i < app.input.len() && !is_white(#[trigger] app.input[i])) ==> (
        action matches Action::Send(text) && text@ == trimmed(app.input)),
        (forall|i: int| 0 <= i < app.input.len() ==> is_white(#[trigger] app.input[i]))
            ==> action is Stay,
{
    let line = app.input;
    law_trimming_takes_the_white_space_at_the_ends(line);
    let (a, b) = choose|a: int, b: int|
        #![trigger line.subrange(a, b)]
        {
            &&& 0 <= a <= b <= line.len()
            &&& trimmed(line) == line.subrange(a, b)
            &&& forall|i: int| 0 <= i < a ==> is_white(#[trigger] line[i])
            &&& forall|i: int| b <= i < line.len() ==> is_white(#[trigger] line[i])
            &&& a < b ==> !is_white(line[a]) && !is_white(line[b - 1])
        };
    assert(trimmed(line).len() == b - a);
    if a == b {
        assert forall|i: int| 0 <= i < line.len() implies is_white(#[trigger] line[i]) by {
            if i >= a {
                assert(b <= i);
            }
        }
    } else {
        assert(!is_white(app.input[a]));
    }
}

/// Only Escape and Control-C quit, only Enter sends, and no other key asks for
/// anything.
pub proof fn law_keys_that_ask(app: AppView, key: Key, action: Action)
    requires
        asks(app, key, action),
    ensures
        action is Quit <==> key == Key::Esc || key == (Key::Char { c: 'c', control: true }),
        action is Send ==> key == Key::Enter,
{
}

/// The keys that scroll move by one line or by ten, within the range of a
/// position, and change nothing else.
pub proof fn law_scrolling_keys_move_the_transcript(app: AppView)
    ensures
        app.scroll >= 1 ==> after_key(app, Key::Up).scroll == app.scroll - 1,
        app.scroll == 0 ==> after_key(app, Key::Up).scroll == 0,
        app.scroll < 65535 ==> after_key(app, Key::Down).scroll == app.scroll + 1,
        app.scroll == 65535 ==> after_key(app, Key::Down).scroll == 65535,
        app.scroll >= 10 ==> after_key(app, Key::PageUp).scroll == app.scroll - 10,
        app.scroll < 10 ==> after_key(app, Key::PageUp).scroll == 0,
        app.scroll <= 65525 ==> after_key(app, Key::PageDown).scroll == app.scroll + 10,
        app.scroll > 65525 ==> after_key(app, Key::PageDown).scroll == 65535,
        after_key(app, Key::End).scroll == 65535,
        forall|key: Key|
            key == Key::Up || key == Key::Down || key == Key::PageUp || key == Key::PageDown || key
                == Key::End || key == Key::Other || key == Key::Esc ==> {
                let now = #[trigger] after_key(app, key);
                &&& now.messages == app.messages
                &&& now.input == app.input
                &&& now.streaming == app.streaming
                &&& now.status == app.status
            },
{
}

// ---------------------------------------------------------------------------
// Layout
// ---------------------------------------------------------------------------

/// Each message stands in the transcript behind those before it: who speaks,
/// what is said, and an empty line. What the model says is laid out as
/// Markdown, and the rest as it is.
pub proof fn law_transcript_names_who_speaks(
    messages: Seq<DisplayMessageView>,
    last: DisplayMessageView,
)
    ensures
        transcript(Seq::empty()).len() == 0,
        ({
            let before = transcript(messages);
            let now = transcript(messages.push(last));
            &&& now.len() == before.len() + 3
            &&& now.take(before.len() as int) == before
            &&& now[before.len() as int] == (PieceView::Speaker {
                role: last.role,
                prefix: match last.role {
                    Role::User => "You: "@,
                    Role::Assistant => "Brain: "@,
                    Role::System => "System: "@,
                },
            })
            &&& now[before.len() as int + 1] == if last.role == Role::Assistant {
                PieceView::Markdown { text: last.content }
            } else {
                PieceView::Plain { text: last.content }
            }
            &&& now[before.len() as int + 2] == PieceView::Gap
        }),
{
    assert(messages.push(last).drop_last() =~= messages);
    let before = transcript(messages);
    assert(transcript(messages.push(last)).take(before.len() as int) =~= before);
}

/// The answer under way stands behind the transcript, as the model's.
pub proof fn law_answer_under_way_stands_last(app: AppView)
    ensures
        app.streaming is None ==> screen_text(app) == transcript(app.messages),
        app.streaming is Some ==> screen_text(app) == transcript(app.messages).push(
            PieceView::Speaker { role: Role::Assistant, prefix: "Brain: "@ },
        ).push(PieceView::Markdown { text: app.streaming->0 }),
{
    if app.streaming is Some {
        assert(screen_text(app) =~= transcript(app.messages).push(
            PieceView::Speaker { role: Role::Assistant, prefix: "Brain: "@ },
        ).push(PieceView::Markdown { text: app.streaming->0 }));
    } else {
        assert(screen_text(app) =~= transcript(app.messages));
    }
}

/// The lines of the transcript are those of its parts, in order. A speaker and
/// a text as it is take one line each, an empty line has no text, and a
/// Markdown text takes the lines it is laid out in.
pub proof fn law_parts_are_laid_out_in_order(pieces: Seq<PieceView>, last: PieceView)
    ensures
        pieces_lines(Seq::empty()).len() == 0,
        pieces_lines(pieces.push(last)) == pieces_lines(pieces) + match last {
            PieceView::Speaker { role, prefix } => seq![seq![prefix]],
            PieceView::Plain { text } => seq![lines_of(text)],
            PieceView::Markdown { text } => if shallow(text) {
                markdown_spans(text)
            } else {
                seq![lines_of(text)]
            },
            PieceView::Gap => seq![Seq::<Seq<char>>::empty()],
        },
{
    assert(pieces.push(last).drop_last() =~= pieces);
}

proof fn lemma_half_depth(s: Seq<char>, n: int)
    requires
        0 <= n <= s.len(),
    ensures
        half_depth(s, n) <= 4 * n,
    decreases n,
{
    if n > 0 {
        lemma_half_depth(s, n - 1);
    }
}

/// What the model says is laid out as Markdown, where it has no more than
/// 8192 characters.
pub proof fn law_answers_are_laid_out_as_markdown(text: Seq<char>)
    requires
        text.len() <= 8192,
    ensures
        piece_lines(PieceView::Markdown { text }) == markdown_spans(text),
{
    assert forall|n: int| 0 <= n <= text.len() implies #[trigger] half_depth(text, n) <= 2
        * MAX_LIST_DEPTH by {
        lemma_half_depth(text, n);
    }
}

/// A line takes as many rows as its characters need, and no row more; an empty
/// one takes one.
pub proof fn law_line_takes_the_rows_it_needs(chars: nat, width: nat)
    ensures
        chars > 0 && width > 0 ==> (rows(chars, width) - 1) * width < chars <= rows(chars, width)
            * width,
        chars == 0 ==> rows(chars, width) == 1,
        width == 0 ==> rows(chars, width) == 1,
{
    if chars > 0 && width > 0 {
        let q = (chars + width - 1) / width as int;
        assert((q - 1) * width < chars <= q * width && q >= 0) by (nonlinear_arith)
            requires
                chars > 0,
                width > 0,
                q == (chars + width - 1) / width as int,
        ;
    }
}

/// Every line counts with its rows and every span with its characters.
pub proof fn law_every_line_counts(
    lines: Seq<Seq<Seq<char>>>,
    line: Seq<Seq<char>>,
    span: Seq<char>,
    width: nat,
)
    ensures
        wrapped(Seq::empty(), width) == 0,
        wrapped(lines.push(line), width) == wrapped(lines, width) + rows(line_width(line), width),
        line_width(Seq::empty()) == 0,
        line_width(line.push(span)) == line_width(line) + span.len(),
        text_size(Seq::empty()) == 0,
        text_size(lines.push(line)) == text_size(lines) + line_width(line) + 1,
{
    assert(lines.push(line).drop_last() =~= lines);
    assert(line.push(span).drop_last() =~= line);
}

/// A transcript is shown from where it is scrolled to, unless its last row
/// would then leave the end of the window empty; one that fits is shown from
/// its start.
pub proof fn law_transcript_is_shown_from_the_scroll(scroll: u16, total: nat, height: nat)
    ensures
        total <= height ==> row_shown(scroll, total, height) == 0,
        height < total <= height + 65535 && scroll <= total - height ==> row_shown(
            scroll,
            total,
            height,
        ) == scroll,
        height < total <= height + 65535 && scroll > total - height ==> row_shown(
            scroll,
            total,
            height,
        ) == total - height,
{
}

/// A border takes one row or column on either side.
pub proof fn law_border_takes_two(side: u16)
    ensures
        side >= 2 ==> inside(side) + 2 == side,
        side < 2 ==> inside(side) == 0,
{
}

} // verus!
