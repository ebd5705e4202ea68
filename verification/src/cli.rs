//! The state of the terminal client: what it shows, and how keys and progress
//! change it.

use vstd::prelude::*;
use vstd::string::*;

use crate::failure::Failure;
use crate::identity::hyphenated;
use crate::models::conversation::{Conversation, ConversationView};
use crate::models::message::{extract_text, text_of, Message, MessageView, Role};
use crate::text::{chars_of, lines, lines_of, string_of, trim, trimmed};

verus! {

// ---------------------------------------------------------------------------
// Configuration
// ---------------------------------------------------------------------------

/// The settings as the environment gives them.
#[derive(Debug)]
pub struct Settings {
    pub mistral_api_key: Option<String>,
    pub mistral_model: Option<String>,
    pub mistral_embed_model: Option<String>,
    pub surrealdb_url: Option<String>,
    pub surrealdb_namespace: Option<String>,
    pub surrealdb_database: Option<String>,
    pub surrealdb_user: Option<String>,
    pub surrealdb_password: Option<String>,
    pub exa_api_key: Option<String>,
}

/// The settings with their defaults filled in.
#[derive(Debug)]
pub struct Config {
    pub mistral_api_key: String,
    pub mistral_model: String,
    pub mistral_embed_model: String,
    pub surrealdb_url: String,
    pub surrealdb_namespace: String,
    pub surrealdb_database: String,
    pub surrealdb_user: String,
    pub surrealdb_password: String,
    pub exa_api_key: Option<String>,
}

/// A setting, or its default.
pub open spec fn setting(given: Option<String>, default: Seq<char>) -> Seq<char> {
    match given {
        Some(value) => value@,
        None => default,
    }
}

fn or_default(given: Option<String>, default: &str) -> (r: String)
    ensures
        r@ == setting(given, default@),
{
    match given {
        Some(value) => value,
        None => default.to_owned(),
    }
}

impl Config {
    /// Fills in the defaults. Only the key of the language model has none.
    pub fn from_settings(given: Settings) -> (r: Result<Config, Failure>)
        ensures
            match r {
                Ok(config) => {
                    &&& given.mistral_api_key == Some(config.mistral_api_key)
                    &&& config.mistral_model@ == setting(
                        given.mistral_model,
                        "mistral-small-latest"@,
                    )
                    &&& config.mistral_embed_model@ == setting(
                        given.mistral_embed_model,
                        "mistral-embed"@,
                    )
                    &&& config.surrealdb_url@ == setting(
                        given.surrealdb_url,
                        "ws://127.0.0.1:8000"@,
                    )
                    &&& config.surrealdb_namespace@ == setting(given.surrealdb_namespace, "brain"@)
                    &&& config.surrealdb_database@ == setting(given.surrealdb_database, "brain"@)
                    &&& config.surrealdb_user@ == setting(given.surrealdb_user, "root"@)
                    &&& config.surrealdb_password@ == setting(given.surrealdb_password, "root"@)
                    &&& config.exa_api_key == given.exa_api_key
                },
                Err(failure) => given.mistral_api_key is None && failure@
                    == "MISTRAL_API_KEY must be set"@,
            },
    {
        match given.mistral_api_key {
            Some(mistral_api_key) => Ok(
                Config {
                    mistral_api_key,
                    mistral_model: or_default(given.mistral_model, "mistral-small-latest"),
                    mistral_embed_model: or_default(given.mistral_embed_model, "mistral-embed"),
                    surrealdb_url: or_default(given.surrealdb_url, "ws://127.0.0.1:8000"),
                    surrealdb_namespace: or_default(given.surrealdb_namespace, "brain"),
                    surrealdb_database: or_default(given.surrealdb_database, "brain"),
                    surrealdb_user: or_default(given.surrealdb_user, "root"),
                    surrealdb_password: or_default(given.surrealdb_password, "root"),
                    exa_api_key: given.exa_api_key,
                },
            ),
            None => Err(Failure::new("MISTRAL_API_KEY must be set")),
        }
    }
}

// ---------------------------------------------------------------------------
// What is shown
// ---------------------------------------------------------------------------

/// A message as it is shown.
#[derive(Debug)]
pub struct DisplayMessage {
    pub role: Role,
    pub content: String,
}

#[verifier::ext_equal]
pub struct DisplayMessageView {
    pub role: Role,
    pub content: Seq<char>,
}

impl View for DisplayMessage {
    type V = DisplayMessageView;

    open spec fn view(&self) -> DisplayMessageView {
        DisplayMessageView { role: self.role, content: self.content@ }
    }
}

impl DeepView for DisplayMessage {
    type V = DisplayMessageView;

    open spec fn deep_view(&self) -> DisplayMessageView {
        self@
    }
}

/// What the client shows: the transcript, the line being typed, the answer
/// being received, and where the transcript is scrolled to.
#[derive(Debug)]
pub struct App {
    pub messages: Vec<DisplayMessage>,
    pub input: String,
    pub streaming: Option<String>,
    pub status: String,
    pub scroll: u16,
}

#[verifier::ext_equal]
pub struct AppView {
    pub messages: Seq<DisplayMessageView>,
    pub input: Seq<char>,
    pub streaming: Option<Seq<char>>,
    pub status: Seq<char>,
    pub scroll: u16,
}

impl View for App {
    type V = AppView;

    open spec fn view(&self) -> AppView {
        AppView {
            messages: self.messages.deep_view(),
            input: self.input@,
            streaming: self.streaming.deep_view(),
            status: self.status@,
            scroll: self.scroll,
        }
    }
}

/// Progress of a message that was sent.
#[derive(Debug)]
pub enum AppEvent {
    UserMessage(String),
    Chunk(String),
    Done(String),
    Error(String),
}

/// A key, as far as the client tells keys apart.
#[derive(Debug, Clone, Copy, PartialEq, Eq, Structural)]
pub enum Key {
    Char { c: char, control: bool },
    Backspace,
    Enter,
    Esc,
    PageUp,
    PageDown,
    Up,
    Down,
    End,
    Other,
}

/// What a key asks for beyond a change of what is shown.
#[derive(Debug)]
pub enum Action {
    Stay,
    Quit,
    Send(String),
}

/// The messages that have a text, as they are shown.
pub open spec fn shown_messages(messages: Seq<MessageView>) -> Seq<DisplayMessageView>
    decreases messages.len(),
{
    if messages.len() == 0 {
        Seq::empty()
    } else {
        let before = shown_messages(messages.drop_last());
        let content = text_of(messages.last().content);
        if content.len() == 0 {
            before
        } else {
            before.push(DisplayMessageView { role: messages.last().role, content })
        }
    }
}

/// The status line for a conversation.
pub open spec fn conversation_status(conversation: ConversationView) -> Seq<char> {
    "ConversationId("@ + hyphenated(conversation.id.0) + (if conversation.summary is Some {
        ") with summary"@
    } else {
        ")"@
    })
}

/// What is shown after an event.
pub open spec fn after_event(app: AppView, event: AppEvent) -> AppView {
    match event {
        AppEvent::UserMessage(text) => AppView {
            messages: app.messages.push(DisplayMessageView { role: Role::User, content: text@ }),
            streaming: Some(Seq::empty()),
            status: "Thinking..."@,
            scroll: u16::MAX,
            ..app
        },
        AppEvent::Chunk(text) => AppView {
            streaming: match app.streaming {
                Some(so_far) => Some(so_far + text@),
                None => None,
            },
            scroll: u16::MAX,
            ..app
        },
        AppEvent::Done(content) => AppView {
            messages: app.messages.push(
                DisplayMessageView { role: Role::Assistant, content: content@ },
            ),
            streaming: None,
            status: "Ready"@,
            scroll: u16::MAX,
            ..app
        },
        AppEvent::Error(text) => AppView {
            streaming: None,
            status: "Error: "@ + text@,
            ..app
        },
    }
}

/// What is shown after a key.
pub open spec fn after_key(app: AppView, key: Key) -> AppView {
    match key {
        Key::Char { c, control } => if control && c == 'c' {
            app
        } else {
            AppView { input: app.input.push(c), ..app }
        },
        Key::Backspace => AppView {
            input: if app.input.len() == 0 {
                app.input
            } else {
                app.input.drop_last()
            },
            ..app
        },
        Key::Enter => AppView { input: Seq::empty(), ..app },
        Key::Esc => app,
        Key::PageUp => AppView { scroll: scrolled(app.scroll, -10), ..app },
        Key::PageDown => AppView { scroll: scrolled(app.scroll, 10), ..app },
        Key::Up => AppView { scroll: scrolled(app.scroll, -1), ..app },
        Key::Down => AppView { scroll: scrolled(app.scroll, 1), ..app },
        Key::End => AppView { scroll: u16::MAX, ..app },
        Key::Other => app,
    }
}

/// A scroll position moved by some lines, within its range.
pub open spec fn scrolled(scroll: u16, by: int) -> u16 {
    if scroll + by < 0 {
        0
    } else if scroll + by > u16::MAX {
        u16::MAX
    } else {
        (scroll + by) as u16
    }
}

/// Whether a key asks for an action.
pub open spec fn asks(app: AppView, key: Key, action: Action) -> bool {
    match key {
        Key::Char { c, control } => if control && c == 'c' {
            action is Quit
        } else {
            action is Stay
        },
        Key::Esc => action is Quit,
        Key::Enter => if trimmed(app.input).len() == 0 {
            action is Stay
        } else {
            action matches Action::Send(text) && text@ == trimmed(app.input)
        },
        _ => action is Stay,
    }
}

impl App {
    pub fn new() -> (r: App)
        ensures
            r@ == (AppView {
                messages: Seq::empty(),
                input: Seq::empty(),
                streaming: None,
                status: "Ready"@,
                scroll: 0,
            }),
    {
        let r = App {
            messages: Vec::new(),
            input: String::new(),
            streaming: None,
            status: "Ready".to_owned(),
            scroll: 0,
        };
        assert(r.messages.deep_view() =~= Seq::empty());
        r
    }

    /// Shows a conversation: its messages that have a text, and its identity
    /// as the status.
    pub fn open(&mut self, conversation: &Conversation, messages: &Vec<Message>)
        ensures
            final(self)@ == (AppView {
                messages: shown_messages(messages.deep_view()),
                status: conversation_status(conversation@),
                ..old(self)@
            }),
    {
        let ghost all = messages.deep_view();
        let mut shown: Vec<DisplayMessage> = Vec::new();
        let mut i: usize = 0;
        assert(shown.deep_view() =~= shown_messages(all.take(0)));
        while i < messages.len()
            invariant
                i <= messages@.len(),
                all == messages.deep_view(),
                shown.deep_view() == shown_messages(all.take(i as int)),
            decreases messages@.len() - i,
        {
            proof {
                let next = all.take(i + 1);
                assert(next.drop_last() =~= all.take(i as int));
                assert(next.last() == messages@[i as int]@);
            }
            let content = extract_text(&messages[i].content);
            if !content.as_str().is_empty() {
                let ghost before = shown.deep_view();
                shown.push(DisplayMessage { role: messages[i].role, content });
                assert(shown.deep_view() =~= before.push(shown@.last()@));
            }
            i += 1;
        }
        assert(all.take(i as int) =~= all);
        let mut status = "ConversationId(".to_owned();
        status.append(conversation.id.to_string().as_str());
        match conversation.summary {
            Some(_) => status.append(") with summary"),
            None => status.append(")"),
        }
        self.messages = shown;
        self.status = status;
    }

    /// Takes note of progress.
    pub fn handle(&mut self, event: AppEvent)
        ensures
            final(self)@ == after_event(old(self)@, event),
    {
        let ghost before = self.messages.deep_view();
        match event {
            AppEvent::UserMessage(text) => {
                self.messages.push(DisplayMessage { role: Role::User, content: text });
                assert(self.messages.deep_view() =~= before.push(self.messages@.last()@));
                self.streaming = Some(String::new());
                self.status = "Thinking...".to_owned();
                self.scroll = u16::MAX;
            },
            AppEvent::Chunk(text) => {
                let streaming = self.streaming.take();
                match streaming {
                    Some(so_far) => {
                        let mut so_far = so_far;
                        so_far.append(text.as_str());
                        self.streaming = Some(so_far);
                    },
                    None => {},
                }
                self.scroll = u16::MAX;
            },
            AppEvent::Done(content) => {
                self.messages.push(DisplayMessage { role: Role::Assistant, content });
                assert(self.messages.deep_view() =~= before.push(self.messages@.last()@));
                self.streaming = None;
                self.status = "Ready".to_owned();
                self.scroll = u16::MAX;
            },
            AppEvent::Error(text) => {
                let mut status = "Error: ".to_owned();
                status.append(text.as_str());
                self.status = status;
                self.streaming = None;
            },
        }
    }

    /// Takes a key.
    pub fn press(&mut self, key: Key) -> (r: Action)
        ensures
            final(self)@ == after_key(old(self)@, key),
            asks(old(self)@, key, r),
    {
        match key {
            Key::Char { c, control } => {
                if control && c == 'c' {
                    return Action::Quit;
                }
                let mut input = self.input.clone();
                input.push(c);
                self.input = input;
                Action::Stay
            },
            Key::Backspace => {
                let chars = chars_of(self.input.as_str());
                let n: usize = chars.len();
                if n > 0 {
                    self.input = string_of(&chars, 0, n - 1);
                    assert(self.input@ =~= old(self).input@.drop_last());
                }
                Action::Stay
            },
            Key::Enter => {
                let text = trim(self.input.as_str());
                self.input = String::new();
                assert(self.input@ =~= Seq::empty());
                if text.as_str().is_empty() {
                    Action::Stay
                } else {
                    Action::Send(text)
                }
            },
            Key::Esc => Action::Quit,
            Key::PageUp => {
                self.scroll = self.scroll.saturating_sub(10);
                Action::Stay
            },
            Key::PageDown => {
                self.scroll = self.scroll.saturating_add(10);
                Action::Stay
            },
            Key::Up => {
                self.scroll = self.scroll.saturating_sub(1);
                Action::Stay
            },
            Key::Down => {
                self.scroll = self.scroll.saturating_add(1);
                Action::Stay
            },
            Key::End => {
                self.scroll = u16::MAX;
                Action::Stay
            },
            Key::Other => Action::Stay,
        }
    }
}

// ---------------------------------------------------------------------------
// Sending
// ---------------------------------------------------------------------------

/// What came back so far of a message that was sent.
#[derive(Debug)]
pub struct Sending {
    pub accumulated: String,
}

impl Sending {
    /// Starts to send a text: the first event shows it.
    pub fn start(text: &str) -> (r: (Sending, AppEvent))
        ensures
            r.0.accumulated@ == Seq::<char>::empty(),
            r.1 matches AppEvent::UserMessage(shown) && shown@ == text@,
    {
        let accumulated = String::new();
        assert(accumulated@ =~= Seq::empty());
        (Sending { accumulated }, AppEvent::UserMessage(text.to_owned()))
    }

    /// A piece of the answer.
    pub fn chunk(&mut self, text: &str) -> (r: AppEvent)
        ensures
            final(self).accumulated@ == old(self).accumulated@ + text@,
            r matches AppEvent::Chunk(piece) && piece@ == text@,
    {
        self.accumulated.append(text);
        AppEvent::Chunk(text.to_owned())
    }

    /// The end of the answer.
    pub fn finish(self) -> (r: AppEvent)
        ensures
            r matches AppEvent::Done(content) && content@ == self.accumulated@,
    {
        AppEvent::Done(self.accumulated)
    }
}

/// What is shown after pieces of an answer.
pub open spec fn after_chunks(app: AppView, pieces: Seq<String>) -> AppView
    decreases pieces.len(),
{
    if pieces.len() == 0 {
        app
    } else {
        after_event(after_chunks(app, pieces.drop_last()), AppEvent::Chunk(pieces.last()))
    }
}

/// The text of pieces of an answer.
pub open spec fn pieces_text(pieces: Seq<String>) -> Seq<char>
    decreases pieces.len(),
{
    if pieces.len() == 0 {
        Seq::empty()
    } else {
        pieces_text(pieces.drop_last()) + pieces.last()@
    }
}

/// While an answer comes in, exactly what came in so far is shown of it.
pub proof fn law_streaming_shows_what_came_in(app: AppView, sent: String, pieces: Seq<String>)
    ensures
        ({
            let started = after_event(app, AppEvent::UserMessage(sent));
            let now = after_chunks(started, pieces);
            &&& now.streaming == Some(pieces_text(pieces))
            &&& now.messages == started.messages
        }),
    decreases pieces.len(),
{
    if pieces.len() > 0 {
        law_streaming_shows_what_came_in(app, sent, pieces.drop_last());
    }
}

// ---------------------------------------------------------------------------
// Layout
// ---------------------------------------------------------------------------

/// A part of the transcript on the screen.
#[derive(Debug)]
pub enum Piece {
    /// The line that names who speaks.
    Speaker { role: Role, prefix: &'static str },
    /// A text as it is, on one line.
    Plain { text: String },
    /// A text in Markdown.
    Markdown { text: String },
    /// An empty line.
    Gap,
}

#[verifier::ext_equal]
pub enum PieceView {
    Speaker { role: Role, prefix: Seq<char> },
    Plain { text: Seq<char> },
    Markdown { text: Seq<char> },
    Gap,
}

impl View for Piece {
    type V = PieceView;

    open spec fn view(&self) -> PieceView {
        match *self {
            Piece::Speaker { role, prefix } => PieceView::Speaker { role, prefix: prefix@ },
            Piece::Plain { text } => PieceView::Plain { text: text@ },
            Piece::Markdown { text } => PieceView::Markdown { text: text@ },
            Piece::Gap => PieceView::Gap,
        }
    }
}

impl DeepView for Piece {
    type V = PieceView;

    open spec fn deep_view(&self) -> PieceView {
        self@
    }
}

/// How a speaker is named.
pub open spec fn prefix_of(role: Role) -> Seq<char> {
    match role {
        Role::User => "You: "@,
        Role::Assistant => "Brain: "@,
        Role::System => "System: "@,
    }
}

fn prefix(role: Role) -> (r: &'static str)
    ensures
        r@ == prefix_of(role),
{
    match role {
        Role::User => "You: ",
        Role::Assistant => "Brain: ",
        Role::System => "System: ",
    }
}

/// The text of a message on the screen: Markdown for what the model says,
/// and as it is for the rest.
pub open spec fn body_of(message: DisplayMessageView) -> PieceView {
    match message.role {
        Role::Assistant => PieceView::Markdown { text: message.content },
        _ => PieceView::Plain { text: message.content },
    }
}

/// The transcript of the messages.
pub open spec fn transcript(messages: Seq<DisplayMessageView>) -> Seq<PieceView>
    decreases messages.len(),
{
    if messages.len() == 0 {
        Seq::empty()
    } else {
        transcript(messages.drop_last()) + seq![
            PieceView::Speaker {
                role: messages.last().role,
                prefix: prefix_of(messages.last().role),
            },
            body_of(messages.last()),
            PieceView::Gap,
        ]
    }
}

/// The transcript with the answer being received at its end.
pub open spec fn screen_text(app: AppView) -> Seq<PieceView> {
    transcript(app.messages) + match app.streaming {
        Some(text) => seq![
            PieceView::Speaker { role: Role::Assistant, prefix: prefix_of(Role::Assistant) },
            PieceView::Markdown { text },
        ],
        None => Seq::empty(),
    }
}

/// Lays out the transcript.
pub fn build_text(app: &App) -> (r: Vec<Piece>)
    ensures
        r.deep_view() == screen_text(app@),
{
    let ghost all = app.messages.deep_view();
    let mut r: Vec<Piece> = Vec::new();
    let mut i: usize = 0;
    assert(r.deep_view() =~= transcript(all.take(0)));
    while i < app.messages.len()
        invariant
            i <= app.messages@.len(),
            all == app.messages.deep_view(),
            r.deep_view() == transcript(all.take(i as int)),
        decreases app.messages@.len() - i,
    {
        let ghost before = r.deep_view();
        proof {
            let next = all.take(i + 1);
            assert(next.drop_last() =~= all.take(i as int));
            assert(next.last() == app.messages@[i as int]@);
        }
        let role = app.messages[i].role;
        let text = app.messages[i].content.clone();
        r.push(Piece::Speaker { role, prefix: prefix(role) });
        match role {
            Role::Assistant => r.push(Piece::Markdown { text }),
            _ => r.push(Piece::Plain { text }),
        }
        r.push(Piece::Gap);
        assert(r.deep_view() =~= before + seq![
            PieceView::Speaker { role, prefix: prefix_of(role) },
            body_of(app.messages@[i as int]@),
            PieceView::Gap,
        ]);
        i += 1;
    }
    assert(all.take(i as int) =~= all);
    let ghost before = r.deep_view();
    match &app.streaming {
        Some(text) => {
            r.push(Piece::Speaker { role: Role::Assistant, prefix: prefix(Role::Assistant) });
            r.push(Piece::Markdown { text: text.clone() });
            assert(r.deep_view() =~= before + seq![
                PieceView::Speaker { role: Role::Assistant, prefix: prefix_of(Role::Assistant) },
                PieceView::Markdown { text: text@ },
            ]);
        },
        None => {
            assert(r.deep_view() =~= before + Seq::empty());
        },
    }
    r
}

/// The lines of a Markdown text on the screen, each by the texts of its spans.
pub uninterp spec fn markdown_spans(text: Seq<char>) -> Seq<Seq<Seq<char>>>;

/// How deep the lists of a Markdown text may be nested: the number of an item
/// is printed with four columns for each level, and a printed width is at most
/// 65535.
pub const MAX_LIST_DEPTH: usize = 16_384;

pub open spec fn is_line_end(c: char) -> bool {
    c == '\n' || c == '\r'
}

/// Whether a blank or the end of the line stands at a position.
pub open spec fn blank_at(s: Seq<char>, i: int) -> bool {
    i >= s.len() || is_line_end(s[i]) || s[i] == ' ' || s[i] == '\t'
}

/// Whether a list marker ends at a position: a sign, or a sign behind a digit,
/// and a blank behind it.
pub open spec fn marker_at(s: Seq<char>, i: int) -> bool {
    blank_at(s, i + 1) && (s[i] == '-' || s[i] == '*' || s[i] == '+' || ((s[i] == '.' || s[i]
        == ')') && 0 < i && '0' <= s[i - 1] <= '9'))
}

/// Whether a letter stands before the position `n` on its line.
pub open spec fn letter_before(s: Seq<char>, n: int) -> bool
    decreases n,
{
    0 < n && !is_line_end(s[n - 1]) && ('a' <= s[n - 1] <= 'z' || 'A' <= s[n - 1] <= 'Z'
        || letter_before(s, n - 1))
}

/// Whether a footnote label opens before the position `n` on its line.
pub open spec fn label_before(s: Seq<char>, n: int) -> bool
    decreases n,
{
    0 < n && !is_line_end(s[n - 1]) && ((1 < n && s[n - 2] == '[' && s[n - 1] == '^')
        || label_before(s, n - 1))
}

/// How much a character at a position can add to the depth of a list, in
/// half levels. A level is two columns of indentation, or a marker. Behind a
/// letter no list starts, except behind the label of a footnote.
pub open spec fn half_levels(s: Seq<char>, i: int) -> nat {
    if letter_before(s, i) && !label_before(s, i) {
        0
    } else if s[i] == ' ' {
        1
    } else if s[i] == '\t' {
        4
    } else if marker_at(s, i) {
        2
    } else {
        0
    }
}

/// How much the characters before the position `n` on its line can add to the
/// depth of a list, in half levels.
pub open spec fn half_depth(s: Seq<char>, n: int) -> nat
    decreases n,
{
    if n <= 0 || is_line_end(s[n - 1]) {
        0
    } else {
        half_depth(s, n - 1) + half_levels(s, n - 1)
    }
}

/// Whether no line of a text can be nested too deep in lists.
pub open spec fn shallow(text: Seq<char>) -> bool {
    forall|n: int|
        0 <= n <= text.len() ==> #[trigger] half_depth(text, n) <= 2 * MAX_LIST_DEPTH
}

fn is_marker(s: &Vec<char>, i: usize) -> (r: bool)
    requires
        i < s@.len(),
    ensures
        r == marker_at(s@, i as int),
{
    let c = s[i];
    let blank = i == s.len() - 1 || s[i + 1] == '\n' || s[i + 1] == '\r' || s[i + 1] == ' ' || s[i
        + 1] == '\t';
    blank && (c == '-' || c == '*' || c == '+' || ((c == '.' || c == ')') && 0 < i && '0' <= s[i
        - 1] && s[i - 1] <= '9'))
}

/// Whether the lists of a Markdown text cannot be nested too deep to lay it
/// out.
pub fn is_shallow(text: &str) -> (r: bool)
    ensures
        r == shallow(text@),
{
    let s = chars_of(text);
    let mut depth: usize = 0;
    let mut letter = false;
    let mut label = false;
    let mut i: usize = 0;
    while i < s.len()
        invariant
            i <= s@.len(),
            s@ == text@,
            depth == half_depth(s@, i as int),
            letter == letter_before(s@, i as int),
            label == label_before(s@, i as int),
            depth <= 2 * MAX_LIST_DEPTH,
            forall|n: int| 0 <= n <= i ==> #[trigger] half_depth(s@, n) <= 2 * MAX_LIST_DEPTH,
        decreases s@.len() - i,
    {
        let c = s[i];
        if c == '\n' || c == '\r' {
            depth = 0;
            letter = false;
            label = false;
        } else {
            let more: usize = if letter && !label {
                0
            } else if c == ' ' {
                1
            } else if c == '\t' {
                4
            } else if is_marker(&s, i) {
                2
            } else {
                0
            };
            depth += more;
            letter = letter || ('a' <= c && c <= 'z') || ('A' <= c && c <= 'Z');
            label = label || (c == '^' && 0 < i && s[i - 1] == '[');
        }
        i += 1;
        assert(depth == half_depth(s@, i as int));
        if depth > 2 * MAX_LIST_DEPTH {
            return false;
        }
    }
    true
}

/// `tui_markdown::from_str`: lays out a Markdown text with the default
/// options. What the lines of a text are is not stated, only that they depend
/// on the text alone. On lists that are nested too deep it panics.
#[verifier::external_body]
fn markdown_lines(text: &str) -> (r: Vec<Vec<String>>)
    requires
        shallow(text@),
    ensures
        r.deep_view() == markdown_spans(text@),
{
    let laid_out = tui_markdown::from_str(text);
    laid_out
        .lines
        .iter()
        .map(|line| line.spans.iter().map(|span| span.content.to_string()).collect())
        .collect()
}

/// The lines of a part of the transcript. A text as it is stands on one line,
/// whatever line ends it has, and so does a Markdown text with a line that
/// could be nested too deep in lists.
pub open spec fn piece_lines(piece: PieceView) -> Seq<Seq<Seq<char>>> {
    match piece {
        PieceView::Speaker { prefix, .. } => seq![seq![prefix]],
        PieceView::Plain { text } => seq![lines_of(text)],
        PieceView::Markdown { text } => if shallow(text) {
            markdown_spans(text)
        } else {
            seq![lines_of(text)]
        },
        PieceView::Gap => seq![Seq::empty()],
    }
}

/// The lines of parts of the transcript.
pub open spec fn pieces_lines(pieces: Seq<PieceView>) -> Seq<Seq<Seq<char>>>
    decreases pieces.len(),
{
    if pieces.len() == 0 {
        Seq::empty()
    } else {
        pieces_lines(pieces.drop_last()) + piece_lines(pieces.last())
    }
}

fn lines_of_piece(piece: &Piece) -> (r: Vec<Vec<String>>)
    ensures
        r.deep_view() == piece_lines(piece@),
{
    let mut r: Vec<Vec<String>> = Vec::new();
    match piece {
        Piece::Speaker { prefix, .. } => {
            let mut line: Vec<String> = Vec::new();
            line.push((*prefix).to_owned());
            assert(line.deep_view() =~= seq![prefix@]);
            r.push(line);
        },
        Piece::Plain { text } => {
            let line = lines(text.as_str());
            assert(line.deep_view() =~= lines_of(text@));
            r.push(line);
        },
        Piece::Markdown { text } => {
            if is_shallow(text.as_str()) {
                return markdown_lines(text.as_str());
            }
            let line = lines(text.as_str());
            assert(line.deep_view() =~= lines_of(text@));
            r.push(line);
        },
        Piece::Gap => {
            let line: Vec<String> = Vec::new();
            assert(line.deep_view() =~= Seq::empty());
            r.push(line);
        },
    }
    assert(r.deep_view() =~= piece_lines(piece@));
    r
}

/// The lines of the transcript, each by the texts of its spans.
pub fn screen_lines(app: &App) -> (r: Vec<Vec<String>>)
    ensures
        r.deep_view() == pieces_lines(screen_text(app@)),
{
    let pieces = build_text(app);
    let ghost all = pieces.deep_view();
    let mut r: Vec<Vec<String>> = Vec::new();
    let mut i: usize = 0;
    assert(r.deep_view() =~= pieces_lines(all.take(0)));
    while i < pieces.len()
        invariant
            i <= pieces@.len(),
            all == pieces.deep_view(),
            r.deep_view() == pieces_lines(all.take(i as int)),
        decreases pieces@.len() - i,
    {
        let ghost before = r.deep_view();
        let mut more = lines_of_piece(&pieces[i]);
        let ghost added = more.deep_view();
        r.append(&mut more);
        proof {
            let next = all.take(i + 1);
            assert(next.drop_last() =~= all.take(i as int));
            assert(next.last() == pieces@[i as int]@);
            assert(r.deep_view() =~= before + added);
        }
        i += 1;
    }
    assert(all.take(i as int) =~= all);
    r
}

/// How many characters a line has.
pub open spec fn line_width(spans: Seq<Seq<char>>) -> nat
    decreases spans.len(),
{
    if spans.len() == 0 {
        0
    } else {
        line_width(spans.drop_last()) + spans.last().len()
    }
}

/// On how many rows a line of some characters is shown. Without a width every
/// line counts as one.
pub open spec fn rows(chars: nat, width: nat) -> nat {
    if chars == 0 || width == 0 {
        1
    } else {
        ((chars + width - 1) / width as int) as nat
    }
}

/// On how many rows the lines are shown together.
pub open spec fn wrapped(lines: Seq<Seq<Seq<char>>>, width: nat) -> nat
    decreases lines.len(),
{
    if lines.len() == 0 {
        0
    } else {
        wrapped(lines.drop_last(), width) + rows(line_width(lines.last()), width)
    }
}

/// How many characters and line ends a text has.
pub open spec fn text_size(lines: Seq<Seq<Seq<char>>>) -> nat
    decreases lines.len(),
{
    if lines.len() == 0 {
        0
    } else {
        text_size(lines.drop_last()) + line_width(lines.last()) + 1
    }
}

proof fn lemma_size_prefix(lines: Seq<Seq<Seq<char>>>, n: int)
    requires
        0 <= n <= lines.len(),
    ensures
        text_size(lines.take(n)) <= text_size(lines),
    decreases lines.len() - n,
{
    if n < lines.len() {
        lemma_size_prefix(lines, n + 1);
        assert(lines.take(n + 1).drop_last() =~= lines.take(n));
    } else {
        assert(lines.take(n) =~= lines);
    }
}

proof fn lemma_width_prefix(spans: Seq<Seq<char>>, n: int)
    requires
        0 <= n <= spans.len(),
    ensures
        line_width(spans.take(n)) <= line_width(spans),
    decreases spans.len() - n,
{
    if n < spans.len() {
        lemma_width_prefix(spans, n + 1);
        assert(spans.take(n + 1).drop_last() =~= spans.take(n));
    } else {
        assert(spans.take(n) =~= spans);
    }
}

proof fn lemma_rows(chars: nat, width: nat)
    ensures
        1 <= rows(chars, width) <= chars + 1,
{
    if chars > 0 && width > 0 {
        assert(1 <= (chars + width - 1) / width as int <= chars) by (nonlinear_arith)
            requires
                chars > 0,
                width > 0,
        ;
    }
}

/// The width of a line, if it can be counted.
fn width_of(spans: &Vec<String>) -> (r: Option<usize>)
    ensures
        match r {
            Some(width) => width == line_width(spans.deep_view()),
            None => line_width(spans.deep_view()) > usize::MAX,
        },
{
    let ghost all = spans.deep_view();
    let mut width: usize = 0;
    let mut i: usize = 0;
    while i < spans.len()
        invariant
            i <= spans@.len(),
            all == spans.deep_view(),
            width == line_width(all.take(i as int)),
        decreases spans@.len() - i,
    {
        proof {
            assert(all.take(i + 1).drop_last() =~= all.take(i as int));
            assert(all.take(i + 1).last() == spans@[i as int]@);
            lemma_width_prefix(all, i + 1);
        }
        match width.checked_add(spans[i].as_str().unicode_len()) {
            Some(sum) => {
                width = sum;
            },
            None => {
                return None;
            },
        }
        i += 1;
    }
    assert(all.take(i as int) =~= all);
    Some(width)
}

/// The widths of the lines, if the text is not too large to be counted.
pub fn line_widths(lines: &Vec<Vec<String>>) -> (r: Option<Vec<usize>>)
    ensures
        match r {
            Some(widths) => {
                &&& text_size(lines.deep_view()) <= usize::MAX
                &&& widths@.len() == lines.deep_view().len()
                &&& forall|i: int|
                    0 <= i < widths@.len() ==> #[trigger] widths@[i] == line_width(
                        lines.deep_view()[i],
                    )
            },
            None => text_size(lines.deep_view()) > usize::MAX,
        },
{
    let ghost all = lines.deep_view();
    let mut widths: Vec<usize> = Vec::new();
    let mut size: usize = 0;
    let mut i: usize = 0;
    while i < lines.len()
        invariant
            i <= lines@.len(),
            all == lines.deep_view(),
            size == text_size(all.take(i as int)),
            widths@.len() == i,
            forall|k: int| 0 <= k < i ==> #[trigger] widths@[k] == line_width(all[k]),
        decreases lines@.len() - i,
    {
        proof {
            assert(all.take(i + 1).drop_last() =~= all.take(i as int));
            assert(all.take(i + 1).last() == lines@[i as int].deep_view());
            lemma_size_prefix(all, i + 1);
        }
        let width: usize = match width_of(&lines[i]) {
            Some(width) => width,
            None => {
                return None;
            },
        };
        if width == usize::MAX {
            return None;
        }
        match size.checked_add(width + 1) {
            Some(sum) => {
                size = sum;
            },
            None => {
                return None;
            },
        }
        widths.push(width);
        i += 1;
    }
    assert(all.take(i as int) =~= all);
    Some(widths)
}

/// Counts the rows that the lines take, if the text is not too large to be
/// counted.
pub fn count_wrapped_lines(lines: &Vec<Vec<String>>, width: usize) -> (r: Option<usize>)
    ensures
        match r {
            Some(total) => text_size(lines.deep_view()) <= usize::MAX && total == wrapped(
                lines.deep_view(),
                width as nat,
            ),
            None => text_size(lines.deep_view()) > usize::MAX,
        },
{
    let widths = match line_widths(lines) {
        Some(widths) => widths,
        None => {
            return None;
        },
    };
    let ghost all = lines.deep_view();
    let mut total: usize = 0;
    let mut i: usize = 0;
    while i < widths.len()
        invariant
            i <= widths@.len(),
            widths@.len() == all.len(),
            forall|k: int|
                0 <= k < widths@.len() ==> #[trigger] widths@[k] == line_width(all[k]),
            text_size(all) <= usize::MAX,
            total == wrapped(all.take(i as int), width as nat),
            total <= text_size(all.take(i as int)),
        decreases widths@.len() - i,
    {
        proof {
            assert(all.take(i + 1).drop_last() =~= all.take(i as int));
            lemma_size_prefix(all, i + 1);
            lemma_rows(line_width(all[i as int]), width as nat);
        }
        let chars: usize = widths[i];
        if width == 0 || chars == 0 {
            total += 1;
        } else {
            let full: usize = chars / width;
            let rest: usize = chars % width;
            proof {
                lemma_ceiling(chars as nat, width as nat);
            }
            total += if rest == 0 { full } else { full + 1 };
        }
        i += 1;
    }
    assert(all.take(i as int) =~= all);
    Some(total)
}

proof fn lemma_ceiling(chars: nat, width: nat)
    requires
        chars > 0,
        width > 0,
    ensures
        (chars + width - 1) / width as int == chars / width + (if chars % width == 0 {
            0int
        } else {
            1int
        }),
{
    let full = chars as int / width as int;
    let rest = chars as int % width as int;
    assert(chars == width * full + rest && 0 <= rest < width) by (nonlinear_arith)
        requires
            width > 0,
            full == chars as int / width as int,
            rest == chars as int % width as int,
    ;
    let up: int = if rest == 0 {
        0
    } else {
        1
    };
    assert((chars + width - 1) / width as int == full + up) by (nonlinear_arith)
        requires
            width > 0,
            chars == width * full + rest,
            0 <= rest < width,
            up == (if rest == 0 {
                0int
            } else {
                1int
            }),
    ;
}

/// The row the transcript is shown from: where it is scrolled to, but not
/// beyond the last row that fills the window. That row is kept in sixteen
/// bits.
pub open spec fn row_shown(scroll: u16, total: nat, height: nat) -> int {
    let over = if total >= height {
        total - height
    } else {
        0
    };
    let last = over % 0x1_0000;
    if scroll <= last {
        scroll as int
    } else {
        last
    }
}

/// Finds the row the transcript is shown from.
pub fn scroll_row(scroll: u16, total: usize, height: usize) -> (r: u16)
    ensures
        r == row_shown(scroll, total as nat, height as nat),
{
    let over: usize = total.saturating_sub(height);
    let last: u16 = #[verifier::truncate]
    (over as u16);
    assert(over as u16 == over % 0x1_0000) by (bit_vector);
    if scroll <= last {
        scroll
    } else {
        last
    }
}

/// What a border leaves of a window's side.
pub open spec fn inside(side: u16) -> nat {
    if side < 2 {
        0
    } else {
        (side - 2) as nat
    }
}

/// The row the transcript is shown from in a window with a border, if the
/// text is not too large to be counted.
pub fn first_row(app: &App, width: u16, height: u16) -> (r: Option<u16>)
    ensures
        ({
            let lines = pieces_lines(screen_text(app@));
            match r {
                Some(row) => text_size(lines) <= usize::MAX && row == row_shown(
                    app@.scroll,
                    wrapped(lines, inside(width)),
                    inside(height),
                ),
                None => text_size(lines) > usize::MAX,
            }
        }),
{
    let lines = screen_lines(app);
    match count_wrapped_lines(&lines, width.saturating_sub(2) as usize) {
        Some(total) => Some(scroll_row(app.scroll, total, height.saturating_sub(2) as usize)),
        None => None,
    }
}

/// As long as the rows fit in sixteen bits, the transcript scrolled to its end
/// shows its last row on the last row of the window.
pub proof fn law_end_fills_the_window(total: nat, height: nat)
    requires
        height <= total <= height + u16::MAX,
    ensures
        row_shown(u16::MAX, total, height) + height == total,
{
}

} // verus!
