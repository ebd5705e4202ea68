//! Reading a streamed completion: server-sent events out of chunks of bytes,
//! and assistant events out of deltas.

use vstd::prelude::*;
use vstd::string::*;

use crate::json::{document, Json};
use crate::language_model::{AssistantEvent, AssistantEventView, ToolCall, ToolCallView};
use crate::text::{after_prefix, chars_of, lines, lines_of, same, string_of, strip_prefix, views};

verus! {

// ---------------------------------------------------------------------------
// Server-sent events
// ---------------------------------------------------------------------------

/// The text of bytes, with the replacement character for what is not UTF-8.
pub uninterp spec fn lossy_text(bytes: Seq<u8>) -> Seq<char>;

/// `String::from_utf8_lossy`: what it makes of the bytes is named; the
/// encoding of a text gives the text back.
#[verifier::external_body]
fn decode_lossy(bytes: &[u8]) -> (r: String)
    ensures
        r@ == lossy_text(bytes@),
        forall|text: Seq<char>| bytes@ == #[trigger] vstd::utf8::encode_utf8(text) ==> r@ == text,
{
    String::from_utf8_lossy(bytes).into_owned()
}

/// The payload of an event, or the end of the stream.
#[derive(Debug)]
pub enum Frame {
    Data(String),
    Done,
}

#[verifier::ext_equal]
pub enum FrameView {
    Data(Seq<char>),
    Done,
}

impl View for Frame {
    type V = FrameView;

    open spec fn view(&self) -> FrameView {
        match *self {
            Frame::Data(text) => FrameView::Data(text@),
            Frame::Done => FrameView::Done,
        }
    }
}

impl DeepView for Frame {
    type V = FrameView;

    open spec fn deep_view(&self) -> FrameView {
        self@
    }
}

/// Whether an event ends at `i`: a blank line follows.
pub open spec fn ends_event(s: Seq<char>, i: int) -> bool {
    0 <= i && i + 1 < s.len() && s[i] == '\n' && s[i + 1] == '\n'
}

/// Where the first event of `s` ends, or the length of `s` where none does.
pub open spec fn event_end(s: Seq<char>) -> nat
    decreases s.len(),
{
    if s.len() == 0 || ends_event(s, 0) {
        0
    } else {
        1 + event_end(s.drop_first())
    }
}

/// The frame of a line, if it carries data.
pub open spec fn frame_of(line: Seq<char>) -> Option<FrameView> {
    match after_prefix(line, "data: "@) {
        Some(data) => if data == "[DONE]"@ {
            Some(FrameView::Done)
        } else {
            Some(FrameView::Data(data))
        },
        None => None,
    }
}

/// The frames of the lines of an event. The end of the stream is the last of
/// them.
pub open spec fn frames_of_lines(lines: Seq<Seq<char>>) -> Seq<FrameView>
    decreases lines.len(),
{
    if lines.len() == 0 {
        Seq::empty()
    } else {
        match frame_of(lines[0]) {
            Some(FrameView::Done) => seq![FrameView::Done],
            Some(frame) => seq![frame] + frames_of_lines(lines.drop_first()),
            None => frames_of_lines(lines.drop_first()),
        }
    }
}

/// Whether frames close the stream.
pub open spec fn closes(frames: Seq<FrameView>) -> bool {
    frames.len() > 0 && frames.last() == FrameView::Done
}

/// What reading a text comes to: the frames of its complete events, up to the
/// end of the stream, and what is left over.
#[verifier::ext_equal]
pub struct ReadView {
    pub frames: Seq<FrameView>,
    pub rest: Seq<char>,
}

pub open spec fn read(s: Seq<char>) -> ReadView
    decreases s.len(),
{
    let end = event_end(s);
    if end >= s.len() {
        ReadView { frames: Seq::empty(), rest: s }
    } else {
        let frames = frames_of_lines(lines_of(s.take(end as int)));
        let rest = s.skip(end as int + 2);
        if closes(frames) || end + 2 > s.len() {
            ReadView { frames, rest }
        } else {
            let more = read(rest);
            ReadView { frames: frames + more.frames, rest: more.rest }
        }
    }
}

proof fn lemma_event_end(s: Seq<char>)
    ensures
        event_end(s) <= s.len(),
        event_end(s) < s.len() ==> ends_event(s, event_end(s) as int),
        forall|i: int| 0 <= i < event_end(s) ==> !#[trigger] ends_event(s, i),
    decreases s.len(),
{
    if s.len() > 0 && !ends_event(s, 0) {
        let t = s.drop_first();
        lemma_event_end(t);
        assert forall|i: int| 0 <= i < event_end(s) implies !#[trigger] ends_event(s, i) by {
            if i > 0 {
                assert(!ends_event(t, i - 1));
            }
        }
        if event_end(s) < s.len() {
            assert(ends_event(t, event_end(t) as int));
        }
    }
}

proof fn lemma_event_end_is(s: Seq<char>, k: int)
    requires
        0 <= k <= s.len(),
        k < s.len() ==> ends_event(s, k),
        forall|i: int| 0 <= i < k ==> !#[trigger] ends_event(s, i),
    ensures
        event_end(s) == k,
{
    lemma_event_end(s);
    let e = event_end(s) as int;
    if e < k {
        assert(ends_event(s, e));
    } else if k < e {
        assert(ends_event(s, k));
    }
}

/// Reading does not depend on how the text was cut into pieces: a text that
/// is read in two pieces, with what the first left over put before the
/// second, gives the same frames and leaves the same over as the whole. What
/// follows the end of the stream is not read.
pub proof fn law_reading_ignores_cuts(a: Seq<char>, b: Seq<char>)
    ensures
        !closes(read(a).frames) ==> {
            &&& read(a + b).frames == read(a).frames + read(read(a).rest + b).frames
            &&& read(a + b).rest == read(read(a).rest + b).rest
        },
        closes(read(a).frames) ==> read(a + b).frames == read(a).frames,
    decreases a.len(),
{
    lemma_event_end(a);
    let end = event_end(a) as int;
    if end < a.len() {
        let s = a + b;
        assert(ends_event(s, end));
        assert forall|i: int| 0 <= i < end implies !#[trigger] ends_event(s, i) by {
            assert(!ends_event(a, i));
        }
        lemma_event_end_is(s, end);
        assert(s.take(end) =~= a.take(end));
        assert(s.skip(end + 2) =~= a.skip(end + 2) + b);
        let frames = frames_of_lines(lines_of(a.take(end)));
        let rest = a.skip(end + 2);
        if !closes(frames) {
            law_reading_ignores_cuts(rest, b);
            let more = read(rest);
            lemma_closes_tail(frames, more.frames);
            if !closes(more.frames) {
                assert(frames + (more.frames + read(more.rest + b).frames) =~= (frames
                    + more.frames) + read(more.rest + b).frames);
            }
        }
    } else {
        assert(read(a).frames + read(a + b).frames =~= read(a + b).frames);
    }
}

proof fn lemma_closes_tail(frames: Seq<FrameView>, more: Seq<FrameView>)
    requires
        !closes(frames),
    ensures
        closes(frames + more) == closes(more),
{
    if more.len() == 0 {
        assert(frames + more =~= frames);
    } else {
        assert((frames + more).last() == more.last());
    }
}

fn frame_in(line: &str) -> (r: Option<Frame>)
    ensures
        r.deep_view() == frame_of(line@),
{
    match strip_prefix(line, "data: ") {
        Some(data) => {
            if same(data.as_str(), "[DONE]") {
                Some(Frame::Done)
            } else {
                Some(Frame::Data(data))
            }
        },
        None => None,
    }
}

fn frames_in(event: &str) -> (r: Vec<Frame>)
    ensures
        r.deep_view() == frames_of_lines(lines_of(event@)),
{
    let all = lines(event);
    let ghost texts = views(all@);
    let mut r: Vec<Frame> = Vec::new();
    let mut i: usize = 0;
    assert(texts.skip(0) =~= texts);
    assert(r.deep_view() + frames_of_lines(texts) =~= frames_of_lines(texts));
    while i < all.len()
        invariant
            i <= all@.len(),
            texts == views(all@),
            texts == lines_of(event@),
            r.deep_view() + frames_of_lines(texts.skip(i as int)) == frames_of_lines(texts),
        decreases all@.len() - i,
    {
        proof {
            let here = texts.skip(i as int);
            assert(here[0] == all@[i as int]@);
            assert(here.drop_first() =~= texts.skip(i + 1));
        }
        let ghost before = r.deep_view();
        match frame_in(all[i].as_str()) {
            Some(frame) => {
                let done = matches!(frame, Frame::Done);
                let ghost seen = frame@;
                r.push(frame);
                assert(r.deep_view() =~= before.push(seen));
                if done {
                    assert(seen == FrameView::Done);
                    assert(frames_of_lines(texts.skip(i as int)) == seq![FrameView::Done]);
                    assert(before + seq![FrameView::Done] =~= r.deep_view());
                    return r;
                }
                assert(before + (seq![seen] + frames_of_lines(texts.skip(i + 1)))
                    =~= r.deep_view() + frames_of_lines(texts.skip(i + 1)));
            },
            None => {},
        }
        i += 1;
    }
    assert(texts.skip(i as int).len() == 0);
    assert(r.deep_view() + frames_of_lines(texts.skip(i as int)) =~= r.deep_view());
    r
}

/// The part of a streamed reply that has not made up an event yet.
#[derive(Debug)]
pub struct EventReader {
    pub buffer: String,
}

impl EventReader {
    pub fn new() -> (r: Self)
        ensures
            r.buffer@ == Seq::<char>::empty(),
    {
        EventReader { buffer: String::new() }
    }

    /// Takes a piece of text and gives the frames that it completes.
    pub fn feed_text(&mut self, text: &str) -> (r: Vec<Frame>)
        ensures
            r.deep_view() == read(old(self).buffer@ + text@).frames,
            final(self).buffer@ == read(old(self).buffer@ + text@).rest,
    {
        self.buffer.append(text);
        let v = chars_of(self.buffer.as_str());
        let ghost whole = self.buffer@;
        let mut r: Vec<Frame> = Vec::new();
        let mut start: usize = 0;
        let mut i: usize = 0;
        assert(whole.skip(0) =~= whole);
        assert(r.deep_view() + read(whole).frames =~= read(whole).frames);
        let mut closed: bool = false;
        while !closed && i < v.len()
            invariant
                start <= i <= v@.len(),
                start <= v@.len(),
                v@ == whole,
                !closed ==> forall|k: int|
                    0 <= k < i - start ==> !#[trigger] ends_event(whole.skip(start as int), k),
                !closed ==> r.deep_view() + read(whole.skip(start as int)).frames == read(
                    whole,
                ).frames,
                !closed ==> read(whole.skip(start as int)).rest == read(whole).rest,
                closed ==> r.deep_view() == read(whole).frames,
                closed ==> whole.skip(start as int) == read(whole).rest,
            decreases v@.len() - i,
        {
            if i < v.len() - 1 && v[i] == '\n' && v[i + 1] == '\n' {
                let event = string_of(&v, start, i);
                let frames = frames_in(event.as_str());
                let ghost here = whole.skip(start as int);
                proof {
                    assert(ends_event(here, i - start));
                    lemma_event_end_is(here, i - start);
                    assert(here.take(i - start) =~= event@);
                    assert(here.skip(i - start + 2) =~= whole.skip(i + 2));
                }
                let ghost before = r.deep_view();
                let ghost found = frames.deep_view();
                let n: usize = frames.len();
                let ends = n > 0 && matches!(frames[n - 1], Frame::Done);
                assert(ends == closes(found)) by {
                    if n > 0 {
                        assert(found.last() == frames@[n - 1]@);
                    }
                }
                let mut frames = frames;
                let ghost had = r@;
                let ghost new = frames@;
                r.append(&mut frames);
                assert(r.deep_view() =~= before + found) by {
                    assert(r@ =~= had + new);
                }
                start = i + 2;
                if ends {
                    closed = true;
                } else {
                    assert(before + (found + read(whole.skip(i + 2)).frames) =~= (before + found)
                        + read(whole.skip(i + 2)).frames);
                }
                i += 2;
            } else {
                assert(!ends_event(whole.skip(start as int), i - start));
                i += 1;
            }
        }
        if !closed {
            proof {
                let here = whole.skip(start as int);
                lemma_event_end(here);
                if event_end(here) < here.len() {
                    assert(ends_event(here, event_end(here) as int));
                }
                assert(r.deep_view() + Seq::<FrameView>::empty() =~= r.deep_view());
            }
        }
        self.buffer = string_of(&v, start, v.len());
        assert(self.buffer@ =~= whole.skip(start as int));
        r
    }

    /// Takes a chunk of bytes and gives the frames that it completes.
    pub fn feed(&mut self, chunk: &[u8]) -> (r: Vec<Frame>)
        ensures
            r.deep_view() == read(old(self).buffer@ + lossy_text(chunk@)).frames,
            final(self).buffer@ == read(old(self).buffer@ + lossy_text(chunk@)).rest,
    {
        let text = decode_lossy(chunk);
        self.feed_text(text.as_str())
    }
}

// ---------------------------------------------------------------------------
// Deltas
// ---------------------------------------------------------------------------

/// A piece of a tool call's function.
#[derive(Debug)]
pub struct FunctionCallDelta {
    pub name: Option<String>,
    pub arguments: Option<String>,
}

/// A piece of a tool call. The first piece carries the identity and the name,
/// later ones pieces of the arguments.
#[derive(Debug)]
pub struct ToolCallDelta {
    pub index: usize,
    pub id: Option<String>,
    pub kind: Option<String>,
    pub function: Option<FunctionCallDelta>,
}

/// A piece of a completion.
#[derive(Debug)]
pub struct Delta {
    pub content: Option<String>,
    pub tool_calls: Option<Vec<ToolCallDelta>>,
}

/// The parts of a piece of a tool call that count.
#[verifier::ext_equal]
pub struct CallPiece {
    pub index: usize,
    pub id: Option<Seq<char>>,
    pub name: Option<Seq<char>>,
    pub arguments: Option<Seq<char>>,
}

impl View for ToolCallDelta {
    type V = CallPiece;

    open spec fn view(&self) -> CallPiece {
        CallPiece {
            index: self.index,
            id: self.id.deep_view(),
            name: match self.function {
                Some(f) => f.name.deep_view(),
                None => None,
            },
            arguments: match self.function {
                Some(f) => f.arguments.deep_view(),
                None => None,
            },
        }
    }
}

impl DeepView for ToolCallDelta {
    type V = CallPiece;

    open spec fn deep_view(&self) -> CallPiece {
        self@
    }
}

/// A tool call being assembled from pieces.
#[derive(Debug)]
pub struct BuildingToolCall {
    pub id: String,
    pub name: String,
    pub arguments: String,
}

#[verifier::ext_equal]
pub struct BuildingView {
    pub id: Seq<char>,
    pub name: Seq<char>,
    pub arguments: Seq<char>,
}

impl View for BuildingToolCall {
    type V = BuildingView;

    open spec fn view(&self) -> BuildingView {
        BuildingView { id: self.id@, name: self.name@, arguments: self.arguments@ }
    }
}

/// The tool call being assembled, with its index. There is never more than
/// one: the next one starts when the one before is complete.
#[derive(Debug)]
pub struct Accumulator {
    pub building: Option<(usize, BuildingToolCall)>,
}

impl View for Accumulator {
    type V = Option<(usize, BuildingView)>;

    open spec fn view(&self) -> Option<(usize, BuildingView)> {
        match self.building {
            Some((index, call)) => Some((index, call@)),
            None => None,
        }
    }
}

/// The event of a complete call. Arguments that are no JSON count as `null`.
pub open spec fn event_of(call: BuildingView) -> AssistantEventView {
    AssistantEventView::ToolCall(
        ToolCallView {
            id: call.id,
            name: call.name,
            input: document(call.arguments),
        },
    )
}

/// The events of what is being assembled, once it is complete.
pub open spec fn flushed(building: Option<(usize, BuildingView)>) -> Seq<AssistantEventView> {
    match building {
        Some((_, call)) => seq![event_of(call)],
        None => Seq::empty(),
    }
}

pub open spec fn empty_call() -> BuildingView {
    BuildingView { id: Seq::empty(), name: Seq::empty(), arguments: Seq::empty() }
}

/// A call with a piece added: identity and name replace, arguments append.
pub open spec fn merged(call: BuildingView, piece: CallPiece) -> BuildingView {
    BuildingView {
        id: match piece.id {
            Some(id) => id,
            None => call.id,
        },
        name: match piece.name {
            Some(name) => name,
            None => call.name,
        },
        arguments: match piece.arguments {
            Some(more) => call.arguments + more,
            None => call.arguments,
        },
    }
}

/// The events and the state after some pieces. A piece of a new index
/// completes the call before it.
pub open spec fn take_pieces(
    building: Option<(usize, BuildingView)>,
    pieces: Seq<CallPiece>,
) -> (Seq<AssistantEventView>, Option<(usize, BuildingView)>)
    decreases pieces.len(),
{
    if pieces.len() == 0 {
        (Seq::empty(), building)
    } else {
        let (events, before) = take_pieces(building, pieces.drop_last());
        let piece = pieces.last();
        match before {
            Some((index, call)) => if index == piece.index {
                (events, Some((index, merged(call, piece))))
            } else {
                (events.push(event_of(call)), Some((piece.index, merged(empty_call(), piece))))
            },
            None => (events, Some((piece.index, merged(empty_call(), piece)))),
        }
    }
}

/// The events and the state after a piece of a completion. A text completes
/// the call before it.
pub open spec fn take_delta(
    building: Option<(usize, BuildingView)>,
    content: Option<Seq<char>>,
    pieces: Seq<CallPiece>,
) -> (Seq<AssistantEventView>, Option<(usize, BuildingView)>) {
    match content {
        Some(text) => {
            let (events, after) = take_pieces(None, pieces);
            (flushed(building).push(AssistantEventView::Text(text)) + events, after)
        },
        None => take_pieces(building, pieces),
    }
}

/// The pieces of tool calls in a delta.
pub open spec fn pieces_of(delta: Delta) -> Seq<CallPiece> {
    match delta.tool_calls {
        Some(calls) => calls.deep_view(),
        None => Seq::empty(),
    }
}

/// The event of a call with its input read.
pub fn tool_call_event(id: String, name: String, input: Json) -> (r: AssistantEvent)
    ensures
        r@ == AssistantEventView::ToolCall(
            ToolCallView { id: id@, name: name@, input: input@ },
        ),
{
    AssistantEvent::ToolCall(ToolCall { id, name, input })
}

/// The event of a complete call.
pub fn building_to_event(call: BuildingToolCall) -> (r: AssistantEvent)
    ensures
        r@ == event_of(call@),
{
    let input = Json::parse_or_null(call.arguments.as_str());
    tool_call_event(call.id, call.name, input)
}

impl Accumulator {
    pub fn new() -> (r: Self)
        ensures
            r@ is None,
    {
        Accumulator { building: None }
    }

    /// Completes the call that is being assembled.
    pub fn flush(&mut self) -> (r: Vec<AssistantEvent>)
        ensures
            r.deep_view() == flushed(old(self)@),
            final(self)@ is None,
    {
        let mut r: Vec<AssistantEvent> = Vec::new();
        match self.building.take() {
            Some((_, call)) => {
                r.push(building_to_event(call));
            },
            None => {},
        }
        assert(r.deep_view() =~= flushed(old(self)@));
        r
    }

    fn take_piece(&mut self, piece: ToolCallDelta, events: &mut Vec<AssistantEvent>)
        ensures
            match old(self)@ {
                Some((index, call)) => if index == piece@.index {
                    final(self)@ == Some((index, merged(call, piece@))) && final(events).deep_view() == old(events).deep_view()
                } else {
                    final(self)@ == Some((piece@.index, merged(empty_call(), piece@))) && final(events).deep_view() == old(events).deep_view().push(event_of(call))
                },
                None => final(self)@ == Some((piece@.index, merged(empty_call(), piece@)))
                    && final(events).deep_view() == old(events).deep_view(),
            },
    {
        let ToolCallDelta { index, id, kind: _, function } = piece;
        let mut call = match self.building.take() {
            Some((at, call)) => {
                if at == index {
                    call
                } else {
                    let ghost before = events.deep_view();
                    let ghost done = call@;
                    events.push(building_to_event(call));
                    assert(events.deep_view() =~= before.push(event_of(done)));
                    BuildingToolCall {
                        id: String::new(),
                        name: String::new(),
                        arguments: String::new(),
                    }
                }
            },
            None => BuildingToolCall {
                id: String::new(),
                name: String::new(),
                arguments: String::new(),
            },
        };
        match id {
            Some(id) => {
                call.id = id;
            },
            None => {},
        }
        match function {
            Some(FunctionCallDelta { name, arguments }) => {
                match name {
                    Some(name) => {
                        call.name = name;
                    },
                    None => {},
                }
                match arguments {
                    Some(more) => {
                        call.arguments.append(more.as_str());
                    },
                    None => {},
                }
            },
            None => {},
        }
        self.building = Some((index, call));
    }

    /// Takes a piece of a completion and gives the events that it completes.
    pub fn process_delta(&mut self, delta: Delta) -> (r: Vec<AssistantEvent>)
        ensures
            r.deep_view() == take_delta(old(self)@, delta.content.deep_view(), pieces_of(delta)).0,
            final(self)@ == take_delta(old(self)@, delta.content.deep_view(), pieces_of(delta)).1,
    {
        let ghost pieces = pieces_of(delta);
        let ghost content = delta.content.deep_view();
        let Delta { content: text, tool_calls } = delta;
        let mut events: Vec<AssistantEvent> = Vec::new();
        assert(events.deep_view() =~= Seq::<AssistantEventView>::empty());
        match text {
            Some(text) => {
                let mut done = self.flush();
                let ghost shown = text@;
                let ghost complete = done.deep_view();
                done.push(AssistantEvent::Text(text));
                assert(done.deep_view() =~= complete.push(AssistantEventView::Text(shown)));
                events = done;
            },
            None => {},
        }
        let ghost head = events.deep_view();
        let ghost start = self@;
        match tool_calls {
            Some(calls) => {
                let mut calls = calls;
                let ghost n = calls@.len();
                let ghost mut taken: int = 0;
                assert(head + take_pieces(start, pieces.take(0)).0 =~= head);
                while calls.len() > 0
                    invariant
                        0 <= taken <= n,
                        pieces.len() == n,
                        calls@.len() == n - taken,
                        calls.deep_view() == pieces.skip(taken),
                        events.deep_view() == head + take_pieces(start, pieces.take(taken)).0,
                        self@ == take_pieces(start, pieces.take(taken)).1,
                    decreases calls@.len(),
                {
                    let ghost left = calls.deep_view();
                    let piece = calls.remove(0);
                    proof {
                        assert(piece@ == left[0]);
                        assert(calls.deep_view() =~= left.drop_first());
                        assert(left.drop_first() =~= pieces.skip(taken + 1));
                        assert(pieces.take(taken + 1).drop_last() =~= pieces.take(taken));
                        assert(pieces.take(taken + 1).last() == piece@);
                    }
                    let ghost before = events.deep_view();
                    self.take_piece(piece, &mut events);
                    proof {
                        taken = taken + 1;
                        assert(events.deep_view() =~= head + take_pieces(
                            start,
                            pieces.take(taken),
                        ).0);
                    }
                }
                assert(pieces.take(taken) =~= pieces);
            },
            None => {
                assert(head + take_pieces(start, pieces).0 =~= head);
            },
        }
        assert(events.deep_view() =~= take_delta(old(self)@, content, pieces).0);
        events
    }
}

/// What a frame held, once read: the deltas of its choices, nothing that
/// could be read, or the end of the stream.
#[derive(Debug)]
pub enum Reading {
    Chunk(Vec<Delta>),
    Unreadable,
    Done,
}

/// The events and the state after some deltas.
pub open spec fn take_deltas(
    building: Option<(usize, BuildingView)>,
    deltas: Seq<Delta>,
) -> (Seq<AssistantEventView>, Option<(usize, BuildingView)>)
    decreases deltas.len(),
{
    if deltas.len() == 0 {
        (Seq::empty(), building)
    } else {
        let (events, before) = take_deltas(building, deltas.drop_last());
        let last = deltas.last();
        let (more, after) = take_delta(before, last.content.deep_view(), pieces_of(last));
        (events + more, after)
    }
}

impl Accumulator {
    /// Takes what a frame held and gives the events that it completes. The end
    /// of the stream completes the call that is being assembled; what could
    /// not be read is passed over.
    pub fn take_reading(&mut self, reading: Reading) -> (r: Vec<AssistantEvent>)
        ensures
            match reading {
                Reading::Chunk(deltas) => r.deep_view() == take_deltas(old(self)@, deltas@).0
                    && final(self)@ == take_deltas(old(self)@, deltas@).1,
                Reading::Unreadable => r@.len() == 0 && final(self)@ == old(self)@,
                Reading::Done => r.deep_view() == flushed(old(self)@) && final(self)@ is None,
            },
    {
        match reading {
            Reading::Chunk(deltas) => {
                let mut deltas = deltas;
                let ghost all = deltas@;
                let ghost mut taken: int = 0;
                let mut events: Vec<AssistantEvent> = Vec::new();
                assert(events.deep_view() =~= Seq::<AssistantEventView>::empty());
                assert(all.take(0).len() == 0);
                while deltas.len() > 0
                    invariant
                        0 <= taken <= all.len(),
                        deltas@ == all.skip(taken),
                        events.deep_view() == take_deltas(old(self)@, all.take(taken)).0,
                        self@ == take_deltas(old(self)@, all.take(taken)).1,
                    decreases deltas@.len(),
                {
                    let delta = deltas.remove(0);
                    proof {
                        assert(delta == all[taken]);
                        assert(deltas@ =~= all.skip(taken + 1));
                        assert(all.take(taken + 1).drop_last() =~= all.take(taken));
                        assert(all.take(taken + 1).last() == delta);
                    }
                    let ghost before = events@;
                    let mut more = self.process_delta(delta);
                    let ghost added = more@;
                    let ghost seen = events.deep_view();
                    let ghost new = more.deep_view();
                    events.append(&mut more);
                    proof {
                        assert(events@ =~= before + added);
                        assert(events.deep_view() =~= seen + new);
                        taken = taken + 1;
                    }
                }
                assert(all.take(taken) =~= all);
                events
            },
            Reading::Unreadable => Vec::new(),
            Reading::Done => self.flush(),
        }
    }
}

/// Arguments may be cut anywhere: two pieces of one call give what one piece
/// with both arguments gives.
pub proof fn law_argument_pieces_join(
    building: Option<(usize, BuildingView)>,
    first: CallPiece,
    more: Seq<char>,
)
    requires
        first.arguments is Some,
    ensures
        take_pieces(
            building,
            seq![
                first,
                CallPiece { index: first.index, id: None, name: None, arguments: Some(more) },
            ],
        ) == take_pieces(
            building,
            seq![CallPiece { arguments: Some(first.arguments->0 + more), ..first }],
        ),
{
    let second = CallPiece { index: first.index, id: None, name: None, arguments: Some(more) };
    let joined = CallPiece { arguments: Some(first.arguments->0 + more), ..first };
    assert(seq![first, second].drop_last() =~= seq![first]);
    assert(seq![first].drop_last() =~= Seq::<CallPiece>::empty());
    assert(seq![joined].drop_last() =~= Seq::<CallPiece>::empty());
    reveal_with_fuel(take_pieces, 3);
    let call = match building {
        Some((index, call)) => if index == first.index {
            call
        } else {
            empty_call()
        },
        None => empty_call(),
    };
    assert(merged(merged(call, first), second) =~= merged(call, joined));
}

/// No call is lost: what a completion's pieces start comes out, either at
/// once or when the accumulator is flushed at the end. Each piece that starts
/// a call adds one to the calls that come out.
pub proof fn law_every_started_call_comes_out(
    building: Option<(usize, BuildingView)>,
    pieces: Seq<CallPiece>,
)
    ensures
        ({
            let (events, after) = take_pieces(building, pieces);
            events.len() + flushed(after).len() == flushed(building).len() + started(
                building,
                pieces,
            )
        }),
    decreases pieces.len(),
{
    if pieces.len() > 0 {
        law_every_started_call_comes_out(building, pieces.drop_last());
    }
}

/// How many of the pieces start a call: those whose index is not the one that
/// is being assembled.
pub open spec fn started(building: Option<(usize, BuildingView)>, pieces: Seq<CallPiece>) -> nat
    decreases pieces.len(),
{
    if pieces.len() == 0 {
        0
    } else {
        let before = started(building, pieces.drop_last());
        match take_pieces(building, pieces.drop_last()).1 {
            Some((index, _)) => if index == pieces.last().index {
                before
            } else {
                before + 1
            },
            None => before + 1,
        }
    }
}

} // verus!
