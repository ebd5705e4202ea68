//! What a streamed reply comes to, in terms of what the service sent.

use vstd::prelude::*;

use crate::json::is_document;
use crate::language_model::AssistantEventView;
use crate::mistral::stream::{
    closes, ends_event, event_end, flushed, frame_of, frames_of_lines, pieces_of, read, take_delta,
    take_deltas, take_pieces, BuildingView, CallPiece, Delta, FrameView,
};
use crate::text::lines_of;
use crate::text_laws::law_last_line_needs_no_line_feed;

verus! {

// ---------------------------------------------------------------------------
// Frames
// ---------------------------------------------------------------------------

proof fn lemma_event_end(s: Seq<char>, k: int)
    requires
        0 <= k,
        ends_event(s, k),
        forall|i: int| 0 <= i < k ==> !#[trigger] ends_event(s, i),
    ensures
        event_end(s) == k,
    decreases s.len(),
{
    if k > 0 {
        assert(!ends_event(s, 0));
        let t = s.drop_first();
        assert(ends_event(t, k - 1));
        assert forall|i: int| 0 <= i < k - 1 implies !#[trigger] ends_event(t, i) by {
            assert(!ends_event(s, i + 1));
        }
        lemma_event_end(t, k - 1);
    }
}

proof fn lemma_no_event(s: Seq<char>)
    requires
        forall|i: int| 0 <= i < s.len() ==> !#[trigger] ends_event(s, i),
    ensures
        event_end(s) == s.len(),
    decreases s.len(),
{
    if s.len() > 0 {
        assert(!ends_event(s, 0));
        let t = s.drop_first();
        assert forall|i: int| 0 <= i < t.len() implies !#[trigger] ends_event(t, i) by {
            assert(!ends_event(s, i + 1));
        }
        lemma_no_event(t);
    }
}

proof fn lemma_line_event(line: Seq<char>, rest: Seq<char>)
    requires
        !line.contains('\n'),
    ensures
        ({
            let s = line + "\n\n"@ + rest;
            let frames = frames_of_lines(lines_of(line));
            if closes(frames) {
                read(s).frames == frames && read(s).rest == rest
            } else {
                read(s).frames == frames + read(rest).frames && read(s).rest == read(rest).rest
            }
        }),
{
    reveal_strlit("\n\n");
    let s = line + "\n\n"@ + rest;
    let k = line.len() as int;
    assert(ends_event(s, k));
    assert forall|i: int| 0 <= i < k implies !#[trigger] ends_event(s, i) by {
        assert(s[i] == line[i]);
        assert(line[i] != '\n');
    }
    lemma_event_end(s, k);
    assert(s.take(k) =~= line);
    assert(s.skip(k + 2) =~= rest);
}

/// Data that the service sends is handed on as it was sent, followed by all
/// that is read of what comes behind it.
pub proof fn law_sent_data_is_handed_on(data: Seq<char>, rest: Seq<char>)
    requires
        !data.contains('\n'),
        data != "[DONE]"@,
    ensures
        ({
            let s = "data: "@ + data + "\n\n"@ + rest;
            &&& read(s).frames == seq![FrameView::Data(data)] + read(rest).frames
            &&& read(s).rest == read(rest).rest
        }),
{
    reveal_strlit("data: ");
    let line = "data: "@ + data;
    assert(!line.contains('\n')) by {
        if line.contains('\n') {
            let j = choose|j: int| 0 <= j < line.len() && line[j] == '\n';
            assert(j >= 6);
            assert(data[j - 6] == '\n');
        }
    }
    law_last_line_needs_no_line_feed(line);
    lemma_line_event(line, rest);
    lemma_data_line(data);
    assert(lines_of(line) == seq![line]);
    assert(seq![line].drop_first() =~= Seq::<Seq<char>>::empty());
    reveal_with_fuel(frames_of_lines, 2);
    assert(frames_of_lines(lines_of(line)) =~= seq![FrameView::Data(data)]);
}

proof fn lemma_data_line(data: Seq<char>)
    ensures
        frame_of("data: "@ + data) == if data == "[DONE]"@ {
            Some(FrameView::Done)
        } else {
            Some(FrameView::Data(data))
        },
{
    let line = "data: "@ + data;
    crate::text_laws::law_prefix_and_rest_make_the_text(line, "data: "@, data);
}

/// The end of the stream is reported, and what comes behind it is not read.
pub proof fn law_end_of_stream_ends_reading(rest: Seq<char>)
    ensures
        read("data: [DONE]\n\n"@ + rest).frames == seq![FrameView::Done],
        read("data: [DONE]\n\n"@ + rest).rest == rest,
{
    reveal_strlit("data: [DONE]\n\n");
    reveal_strlit("data: ");
    reveal_strlit("[DONE]");
    reveal_strlit("\n\n");
    let line = "data: "@ + "[DONE]"@;
    assert("data: [DONE]\n\n"@ =~= line + "\n\n"@);
    assert(!line.contains('\n'));
    law_last_line_needs_no_line_feed(line);
    lemma_line_event(line, rest);
    lemma_data_line("[DONE]"@);
    assert(lines_of(line) == seq![line]);
    reveal_with_fuel(frames_of_lines, 2);
    assert("data: [DONE]\n\n"@ + rest =~= line + "\n\n"@ + rest);
}

/// A line that carries no data is passed over.
pub proof fn law_other_lines_are_passed_over(line: Seq<char>, rest: Seq<char>)
    requires
        !line.contains('\n'),
        !("data: "@).is_prefix_of(line),
    ensures
        read(line + "\n\n"@ + rest).frames == read(rest).frames,
        read(line + "\n\n"@ + rest).rest == read(rest).rest,
{
    law_last_line_needs_no_line_feed(line);
    lemma_line_event(line, rest);
    assert(frame_of(line) is None);
    assert(seq![line].drop_first() =~= Seq::<Seq<char>>::empty());
    reveal_with_fuel(frames_of_lines, 2);
    assert(frames_of_lines(lines_of(line)) =~= Seq::<FrameView>::empty());
    assert(frames_of_lines(lines_of(line)) + read(rest).frames =~= read(rest).frames);
}

/// What no blank line has closed yet is kept until one does.
pub proof fn law_open_event_is_kept(s: Seq<char>)
    requires
        forall|i: int|
            0 <= i < s.len() - 1 ==> !(#[trigger] s[i] == '\n' && s[i + 1] == '\n'),
    ensures
        read(s).frames.len() == 0,
        read(s).rest == s,
{
    assert forall|i: int| 0 <= i < s.len() implies !#[trigger] ends_event(s, i) by {
        if i < s.len() - 1 {
            assert(!(s[i] == '\n' && s[i + 1] == '\n'));
        }
    }
    lemma_no_event(s);
}

/// Every line of an event that carries data is handed on, in order, until the
/// end of the stream.
pub proof fn law_lines_of_an_event_are_handed_on_in_order(
    data: Seq<char>,
    lines: Seq<Seq<char>>,
)
    requires
        data != "[DONE]"@,
    ensures
        frames_of_lines(seq!["data: "@ + data] + lines) == seq![FrameView::Data(data)]
            + frames_of_lines(lines),
        frames_of_lines(seq!["data: "@ + "[DONE]"@] + lines) == seq![FrameView::Done],
        frames_of_lines(Seq::empty()).len() == 0,
{
    lemma_data_line(data);
    lemma_data_line("[DONE]"@);
    assert((seq!["data: "@ + data] + lines).drop_first() =~= lines);
}

// ---------------------------------------------------------------------------
// Events
// ---------------------------------------------------------------------------

/// What a call comes to: its identity, its name and its arguments as they were
/// sent, or `null` where the arguments are no JSON document.
pub open spec fn comes_to(
    event: AssistantEventView,
    id: Seq<char>,
    name: Seq<char>,
    arguments: Seq<char>,
) -> bool {
    event matches AssistantEventView::ToolCall(call) && {
        &&& call.id == id
        &&& call.name == name
        &&& is_document(arguments) ==> call.input == arguments
        &&& !is_document(arguments) ==> call.input == "null"@
    }
}

/// A text is handed on as it came, behind the call that was being assembled.
pub proof fn law_text_is_handed_on(
    building: Option<(usize, BuildingView)>,
    text: Seq<char>,
)
    ensures
        ({
            let (events, after) = take_delta(building, Some(text), Seq::empty());
            &&& events.len() > 0
            &&& events.last() == AssistantEventView::Text(text)
            &&& after is None
            &&& building is None ==> events.len() == 1
            &&& building is Some ==> events.len() == 2 && comes_to(
                events[0],
                (building->0).1.id,
                (building->0).1.name,
                (building->0).1.arguments,
            )
        }),
{
}

/// A call that came in one piece comes out whole when the stream ends, and
/// nothing of it before.
pub proof fn law_call_comes_out_at_the_end(
    index: usize,
    id: Seq<char>,
    name: Seq<char>,
    arguments: Seq<char>,
)
    ensures
        ({
            let piece = CallPiece {
                index,
                id: Some(id),
                name: Some(name),
                arguments: Some(arguments),
            };
            let (events, after) = take_delta(None, None, seq![piece]);
            &&& events.len() == 0
            &&& flushed(after).len() == 1
            &&& comes_to(flushed(after)[0], id, name, arguments)
        }),
{
    let piece = CallPiece { index, id: Some(id), name: Some(name), arguments: Some(arguments) };
    assert(seq![piece].drop_last() =~= Seq::<CallPiece>::empty());
    reveal_with_fuel(take_pieces, 2);
    let (events, after) = take_delta(None, None, seq![piece]);
    assert(after is Some);
    assert((after->0).1.arguments =~= arguments);
}

/// A piece of the call that is being assembled adds to its arguments, and
/// leaves its identity and its name as they are unless it has its own.
pub proof fn law_piece_adds_to_its_call(index: usize, call: BuildingView, piece: CallPiece)
    requires
        piece.index == index,
    ensures
        ({
            let (events, after) = take_pieces(Some((index, call)), seq![piece]);
            &&& events.len() == 0
            &&& after matches Some((at, grown)) && {
                &&& at == index
                &&& piece.id is None ==> grown.id == call.id
                &&& piece.id is Some ==> grown.id == piece.id->0
                &&& piece.name is None ==> grown.name == call.name
                &&& piece.name is Some ==> grown.name == piece.name->0
                &&& piece.arguments is None ==> grown.arguments == call.arguments
                &&& piece.arguments is Some ==> grown.arguments == call.arguments
                    + piece.arguments->0
            }
        }),
{
    assert(seq![piece].drop_last() =~= Seq::<CallPiece>::empty());
    reveal_with_fuel(take_pieces, 2);
}

/// A piece of another call completes the call before it and starts a new one
/// with what it brings.
pub proof fn law_next_call_completes_the_one_before(
    index: usize,
    call: BuildingView,
    piece: CallPiece,
)
    requires
        piece.index != index,
    ensures
        ({
            let (events, after) = take_pieces(Some((index, call)), seq![piece]);
            &&& events.len() == 1
            &&& comes_to(events[0], call.id, call.name, call.arguments)
            &&& after matches Some((at, fresh)) && {
                &&& at == piece.index
                &&& piece.id is Some ==> fresh.id == piece.id->0
                &&& piece.id is None ==> fresh.id.len() == 0
                &&& piece.name is Some ==> fresh.name == piece.name->0
                &&& piece.name is None ==> fresh.name.len() == 0
                &&& piece.arguments is Some ==> fresh.arguments == piece.arguments->0
                &&& piece.arguments is None ==> fresh.arguments.len() == 0
            }
        }),
{
    assert(seq![piece].drop_last() =~= Seq::<CallPiece>::empty());
    reveal_with_fuel(take_pieces, 2);
    let (events, after) = take_pieces(Some((index, call)), seq![piece]);
    if piece.arguments is Some {
        assert((after->0).1.arguments =~= piece.arguments->0);
    }
}

/// Pieces are taken in order: what comes of some of them, and then of others,
/// is what comes of all.
pub proof fn law_pieces_are_taken_in_order(
    building: Option<(usize, BuildingView)>,
    a: Seq<CallPiece>,
    b: Seq<CallPiece>,
)
    ensures
        ({
            let (first, between) = take_pieces(building, a);
            let (second, after) = take_pieces(between, b);
            take_pieces(building, a + b) == (first + second, after)
        }),
    decreases b.len(),
{
    let (first, between) = take_pieces(building, a);
    if b.len() == 0 {
        assert(a + b =~= a);
        assert(first + Seq::<AssistantEventView>::empty() =~= first);
    } else {
        assert((a + b).drop_last() =~= a + b.drop_last());
        assert((a + b).last() == b.last());
        law_pieces_are_taken_in_order(building, a, b.drop_last());
        let (second, after) = take_pieces(between, b);
        assert(take_pieces(building, a + b).0 =~= first + second);
    }
}

/// Deltas are taken in order, and a delta of a text hands it on before what
/// its pieces complete.
pub proof fn law_deltas_are_taken_in_order(
    building: Option<(usize, BuildingView)>,
    deltas: Seq<Delta>,
    last: Delta,
)
    ensures
        ({
            let (first, between) = take_deltas(building, deltas);
            let (all, after) = take_deltas(building, deltas.push(last));
            let pieces = match last.tool_calls {
                Some(calls) => calls.deep_view(),
                None => Seq::empty(),
            };
            match last.content {
                Some(text) => {
                    let (more, end) = take_pieces(None, pieces);
                    &&& all == first + flushed(between).push(AssistantEventView::Text(text@)) + more
                    &&& after == end
                },
                None => {
                    let (more, end) = take_pieces(between, pieces);
                    &&& all == first + more
                    &&& after == end
                },
            }
        }),
        take_deltas(building, Seq::empty()) == (Seq::<AssistantEventView>::empty(), building),
{
    assert(deltas.push(last).drop_last() =~= deltas);
    let (first, between) = take_deltas(building, deltas);
    let (all, after) = take_deltas(building, deltas.push(last));
    if let Some(text) = last.content {
        let (more, end) = take_pieces(None, pieces_of(last));
        assert(all =~= first + flushed(between).push(AssistantEventView::Text(text@)) + more);
    }
}

} // verus!
