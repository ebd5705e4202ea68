//! The templates that come with the library.

use vstd::prelude::*;

use crate::prompts::{
    all_tame, body_of, header_name, leak, name_in_header, tame_under, PromptRegistry,
    PromptTemplate, TemplateTable,
};
use crate::template_tags::{
    branches, close_from, column, harmful_statement, inside_of, is_letter, is_word_char,
    links_before, opens_at, plain_tag, plain_token, statement_at, tame, token_at, tokens_from,
    word_end, TokenView, MAX_ELIFS, MAX_LINE,
};
use crate::text::{
    equal_to, is_white, lines_of, skip_front, trimmed, trimmed_start, without_leading,
};

verus! {

/// The system prompt of a generation.
pub const SYSTEM: &'static str = "#system
You are a helpful peer in one continuous conversation. Answer plainly and briefly.

Messages wrapped in <temporal_update> tell you the current time. Never mention them.
{% if summary %}
<earlier_conversation_context>
{{ summary }}
</earlier_conversation_context>
{% endif %}
{% if recalled %}
<recalled_conversation_context>
{{ recalled }}

Use this as silent background knowledge. Do not announce that recall happened.
</recalled_conversation_context>
{% endif %}
";

/// What every summary is told.
pub const SUMMARIZE_BASE: &'static str = "#summarize_base
Summarise the conversation for a reader who will continue it. Keep names, decisions, open
questions and facts that were established. Write plain prose and add nothing.
";

/// What the summary of a topic that was left is told.
pub const SUMMARIZE_TOPIC_SHIFT: &'static str = "#summarize_topic_shift
The conversation has moved on to a new topic: {{ new_topic }}. Summarise the prior topic so
that it can be picked up again later.
";

/// What the summary of a long conversation is told.
pub const SUMMARIZE_COMPACTION: &'static str = "#summarize_compaction
The conversation goes on and no longer fits. Summarise it so that nothing needed to continue
the current thread is lost.
";

/// What the topic detector is told.
pub const DETECT_TOPIC_SHIFT: &'static str = "#detect_topic_shift
Decide whether the last message moves the conversation to a new topic. Prefer to stay on the
topic when in doubt. Reply with a JSON object: shifted (boolean), new_topic (string or null)
and at_message_index (number or null, counted from 0).
";

/// A registry of the built-in templates.
#[derive(Debug)]
pub struct EmbeddedPromptRegistry {
    table: TemplateTable,
}

impl EmbeddedPromptRegistry {
    pub closed spec fn held(&self) -> Map<Seq<char>, Seq<char>> {
        self.table@
    }

    /// The built-in templates, each under the name in its header.
    pub fn new() -> (r: Self)
        ensures
            r.templates() == built_in(),
            all_tame(r.templates()),
    {
        let mut registry = EmbeddedPromptRegistry { table: TemplateTable::new() };
        registry.register_all();
        proof {
            law_built_in_is_tame(Map::empty());
        }
        registry
    }

    /// Adds the built-in templates.
    pub fn register_all(&mut self)
        ensures
            final(self).templates() == with_built_in(old(self).templates()),
    {
        self.register(SYSTEM);
        self.register(SUMMARIZE_BASE);
        self.register(SUMMARIZE_TOPIC_SHIFT);
        self.register(SUMMARIZE_COMPACTION);
        self.register(DETECT_TOPIC_SHIFT);
    }

    /// Adds a template under the name in its header, in place of an earlier
    /// one of that name.
    pub fn register(&mut self, template: &'static str)
        ensures
            final(self).templates() == old(self).templates().insert(
                header_name(template@),
                template@,
            ),
    {
        let name = leak(name_in_header(template));
        self.table.insert(PromptTemplate { name, template });
    }
}

/// Templates with the built-in ones added.
pub open spec fn with_built_in(templates: Map<Seq<char>, Seq<char>>) -> Map<Seq<char>, Seq<char>> {
    templates.insert(header_name(SYSTEM@), SYSTEM@).insert(
        header_name(SUMMARIZE_BASE@),
        SUMMARIZE_BASE@,
    ).insert(header_name(SUMMARIZE_TOPIC_SHIFT@), SUMMARIZE_TOPIC_SHIFT@).insert(
        header_name(SUMMARIZE_COMPACTION@),
        SUMMARIZE_COMPACTION@,
    ).insert(header_name(DETECT_TOPIC_SHIFT@), DETECT_TOPIC_SHIFT@)
}

/// The built-in templates by name.
pub open spec fn built_in() -> Map<Seq<char>, Seq<char>> {
    with_built_in(Map::empty())
}

// ---------------------------------------------------------------------------
// The names of the built-in templates
// ---------------------------------------------------------------------------

/// Whether a template opens with a line of `#` and a name.
spec fn opens_with(template: Seq<char>, name: Seq<char>) -> bool {
    &&& name.len() + 2 <= template.len()
    &&& template[0] == '#'
    &&& template.subrange(1, name.len() + 1int) == name
    &&& template[name.len() + 1int] == '\n'
}

/// Whether a text is a name: letters and underscores.
spec fn is_name(name: Seq<char>) -> bool {
    &&& name.len() > 0
    &&& forall|i: int|
        0 <= i < name.len() ==> (is_letter(#[trigger] name[i]) || name[i] == '_')
}

proof fn lemma_header(template: Seq<char>, name: Seq<char>)
    requires
        is_name(name),
        opens_with(template, name),
    ensures
        header_name(template) == name,
        body_of(template) == template.skip(name.len() as int + 2),
{
    let k = name.len() as int + 1;
    assert forall|i: int| 0 <= i < k implies template[i] != '\n' by {
        if i > 0 {
            assert(template.subrange(1, name.len() + 1int)[i - 1] == name[i - 1]);
        }
    }
    template.index_of_first_ensures('\n');
    assert(template.contains('\n'));
    assert(template.index_of_first('\n') == Some(k));
    let first = template.take(k);
    assert(first.drop_first() =~= name);
    assert(first.last() == name.last());
    assert(is_letter(name[name.len() - 1]) || name[name.len() - 1] == '_');
    assert(is_letter(name[0]) || name[0] == '_');
    assert(lines_of(template)[0] == first);
    reveal_with_fuel(skip_front, 3);
    assert(first[0] == '#');
    assert(skip_front(name, equal_to('#')) == name);
    assert(without_leading(first, '#') == name);
    assert(!is_white(name[0]));
    assert(!is_white(name.last()));
    assert(trimmed_start(name) == name);
    assert(trimmed(name) == name);
    assert(!is_white('#'));
    assert(trimmed_start(first) == first);
}

// ---------------------------------------------------------------------------
// The tags of the built-in templates
// ---------------------------------------------------------------------------

proof fn lemma_close_of_rest(s: Seq<char>, k: int, i: int)
    requires
        0 <= k <= s.len(),
        0 <= i,
    ensures
        close_from(s.skip(k), i) == close_from(s, i + k) - k,
        close_from(s, i + k) >= i + k,
    decreases s.len() - k - i,
{
    if i < s.len() - k && s[i + k] != '}' {
        lemma_close_of_rest(s, k, i + 1);
    }
}

proof fn lemma_inside_of_rest(s: Seq<char>, k: int, i: int)
    requires
        0 <= k <= s.len(),
        opens_at(s.skip(k), i),
    ensures
        opens_at(s, i + k),
        inside_of(s.skip(k), i) == inside_of(s, i + k),
{
    let rest = s.skip(k);
    lemma_close_of_rest(s, k, i + 2);
    let end = close_from(s, i + k + 2);
    if end < s.len() {
        assert(rest.subrange(i + 2, end - k) =~= s.subrange(i + k + 2, end));
        if i + k + 2 < end {
            assert(rest.subrange(i + 2, end - k - 1) =~= s.subrange(i + k + 2, end - 1));
        }
    }
}

proof fn lemma_column(s: Seq<char>, n: int)
    requires
        0 <= n,
    ensures
        column(s, n) <= n,
    decreases n,
{
    if n > 0 {
        lemma_column(s, n - 1);
    }
}

proof fn lemma_no_elifs(s: Seq<char>, n: int)
    requires
        forall|i: int| #[trigger] opens_at(s, i) ==> statement_at(s, i) != "elif"@,
    ensures
        branches(s, n).1 == 0,
    decreases n,
{
    reveal_strlit("elif");
    if n > 0 {
        lemma_no_elifs(s, n - 1);
        assert("elif"@.len() == 4);
    }
}

/// What is behind the header of a short text is tame, if its tags are plain
/// and none is an `elif`.
proof fn lemma_short(s: Seq<char>, k: int)
    requires
        s.len() <= 1000,
        0 <= k <= s.len(),
        forall|i: int| #[trigger]
            opens_at(s, i) ==> plain_tag(s, i) && statement_at(s, i) != "elif"@,
    ensures
        tame(s.skip(k)),
{
    let rest = s.skip(k);
    assert forall|i: int| #[trigger] opens_at(rest, i) implies plain_tag(rest, i) && statement_at(
        rest,
        i,
    ) != "elif"@ by {
        lemma_inside_of_rest(s, k, i);
    }
    assert forall|n: int| 0 <= n <= rest.len() implies (#[trigger] branches(rest, n)).1
        <= MAX_ELIFS by {
        lemma_no_elifs(rest, n);
    }
    assert forall|n: int| 0 <= n <= rest.len() implies #[trigger] column(rest, n) <= MAX_LINE by {
        lemma_column(rest, n);
    }
}

proof fn lemma_word_end(s: Seq<char>, i: int, j: int)
    requires
        0 <= i <= j < s.len(),
        forall|k: int| i <= k < j ==> is_word_char(#[trigger] s[k]),
        s[j] == ' ',
    ensures
        word_end(s, i) == j,
    decreases j - i,
{
    if i < j {
        lemma_word_end(s, i + 1, j);
    }
}

/// A word between blanks is a token.
proof fn lemma_word(s: Seq<char>, i: int, word: Seq<char>)
    requires
        is_name(word),
        0 <= i,
        i + 1 + word.len() < s.len(),
        s[i] == ' ',
        s.subrange(i + 1, i + 1 + word.len()) == word,
        s[i + 1 + word.len()] == ' ',
        tokens_from(s, i + 1 + word.len()) is Some,
    ensures
        tokens_from(s, i) == Some(
            seq![TokenView::Word(word)] + tokens_from(s, i + 1 + word.len())->0,
        ),
{
    let j = i + 1 + word.len();
    assert forall|k: int| i + 1 <= k < j implies is_word_char(#[trigger] s[k]) by {
        assert(s.subrange(i + 1, j)[k - i - 1] == word[k - i - 1]);
    }
    lemma_word_end(s, i + 1, j);
    assert(is_word_char(s[i + 1]));
    assert(token_at(s, i) == Some((None::<TokenView>, i + 1)));
    assert(token_at(s, i + 1) == Some((Some(TokenView::Word(word)), j)));
    reveal_with_fuel(tokens_from, 3);
}

proof fn lemma_close(s: Seq<char>, i: int, end: int)
    requires
        0 <= i <= end < s.len(),
        s[end] == '}',
        forall|k: int| i <= k < end ==> #[trigger] s[k] != '}',
    ensures
        close_from(s, i) == end,
    decreases end - i,
{
    if i < end {
        lemma_close(s, i + 1, end);
    }
}

/// The inside of a tag without a closing brace.
proof fn lemma_inside(s: Seq<char>, i: int, inside: Seq<char>)
    requires
        opens_at(s, i),
        i + inside.len() + 3 < s.len(),
        s.subrange(i + 2, i + 2 + inside.len()) == inside,
        forall|k: int| 0 <= k < inside.len() ==> #[trigger] inside[k] != '}',
        s[i + 2 + inside.len()] == if s[i + 1] == '{' {
            '}'
        } else {
            '%'
        },
        s[i + 3 + inside.len()] == '}',
    ensures
        inside_of(s, i) == Some(inside),
{
    let end = if s[i + 1] == '{' {
        i + 2 + inside.len()
    } else {
        i + 3 + inside.len()
    };
    assert forall|k: int| i + 2 <= k < end implies #[trigger] s[k] != '}' by {
        if k < i + 2 + inside.len() {
            assert(s.subrange(i + 2, i + 2 + inside.len())[k - i - 2] == inside[k - i - 2]);
        }
    }
    lemma_close(s, i + 2, end);
}

/// A name between blanks is one token.
proof fn lemma_one_word(word: Seq<char>, inside: Seq<char>)
    requires
        is_name(word),
        inside =~= seq![' '] + word + seq![' '],
    ensures
        tokens_from(inside, 0) == Some(seq![TokenView::Word(word)]),
        forall|k: int| 0 <= k < inside.len() ==> #[trigger] inside[k] != '}',
{
    let m = 1 + word.len() as int;
    assert forall|k: int| 0 <= k < inside.len() implies #[trigger] inside[k] != '}' by {
        if 0 < k < m {
            assert(inside[k] == word[k - 1]);
        }
    }
    let none = Seq::<TokenView>::empty();
    assert(inside.subrange(1, m) =~= word);
    assert(tokens_from(inside, m) == Some(none)) by {
        reveal_with_fuel(tokens_from, 2);
    }
    lemma_word(inside, 0, word);
    assert(seq![TokenView::Word(word)] + none =~= seq![TokenView::Word(word)]);
}

/// Two names between blanks are two tokens.
proof fn lemma_two_words(word: Seq<char>, name: Seq<char>, inside: Seq<char>)
    requires
        is_name(word),
        is_name(name),
        inside =~= seq![' '] + word + seq![' '] + name + seq![' '],
    ensures
        tokens_from(inside, 0) == Some(seq![TokenView::Word(word), TokenView::Word(name)]),
        forall|k: int| 0 <= k < inside.len() ==> #[trigger] inside[k] != '}',
{
    let m = 1 + word.len() as int;
    let n = m + 1 + name.len() as int;
    assert forall|k: int| 0 <= k < inside.len() implies #[trigger] inside[k] != '}' by {
        if 0 < k < m {
            assert(inside[k] == word[k - 1]);
        } else if m < k < n {
            assert(inside[k] == name[k - m - 1]);
        }
    }
    let none = Seq::<TokenView>::empty();
    assert(inside.subrange(1, m) =~= word);
    assert(inside.subrange(m + 1, n) =~= name);
    assert(tokens_from(inside, n) == Some(none)) by {
        reveal_with_fuel(tokens_from, 2);
    }
    lemma_word(inside, m, name);
    lemma_word(inside, 0, word);
    assert(seq![TokenView::Word(word)] + (seq![TokenView::Word(name)] + none) =~= seq![
        TokenView::Word(word),
        TokenView::Word(name),
    ]);
}

/// A tag that prints a value.
proof fn lemma_value_tag(s: Seq<char>, i: int, name: Seq<char>, inside: Seq<char>)
    requires
        is_name(name),
        inside =~= seq![' '] + name + seq![' '],
        opens_at(s, i),
        s[i + 1] == '{',
        i + inside.len() + 3 < s.len(),
        s.subrange(i + 2, i + 2 + inside.len()) == inside,
        s[i + 2 + inside.len()] == '}',
        s[i + 3 + inside.len()] == '}',
    ensures
        plain_tag(s, i),
        statement_at(s, i) != "elif"@,
{
    reveal_strlit("elif");
    assert("elif"@.len() == 4);
    lemma_one_word(name, inside);
    lemma_inside(s, i, inside);
    let t = seq![TokenView::Word(name)];
    reveal_with_fuel(links_before, 2);
    assert(is_letter(name[0]) || name[0] == '_');
    assert(plain_token(t, 0));
}

/// Whether a word opens a statement that the rules say nothing of.
spec fn ordinary(word: Seq<char>) -> bool {
    is_name(word) && !harmful_statement(word) && word != "elif"@ && word != "filter"@ && word
        != "is"@
}

/// A tag that holds a statement of one word.
proof fn lemma_word_tag(s: Seq<char>, i: int, word: Seq<char>, inside: Seq<char>)
    requires
        ordinary(word),
        inside =~= seq![' '] + word + seq![' '],
        opens_at(s, i),
        s[i + 1] == '%',
        i + inside.len() + 3 < s.len(),
        s.subrange(i + 2, i + 2 + inside.len()) == inside,
        s[i + 2 + inside.len()] == '%',
        s[i + 3 + inside.len()] == '}',
    ensures
        plain_tag(s, i),
        statement_at(s, i) != "elif"@,
{
    lemma_one_word(word, inside);
    lemma_inside(s, i, inside);
    let t = seq![TokenView::Word(word)];
    reveal_with_fuel(links_before, 2);
    assert(is_letter(word[0]) || word[0] == '_');
    assert(plain_token(t, 0));
}

/// A tag that holds a statement of a word and a name.
proof fn lemma_name_tag(
    s: Seq<char>,
    i: int,
    word: Seq<char>,
    name: Seq<char>,
    inside: Seq<char>,
)
    requires
        ordinary(word),
        is_name(name),
        inside =~= seq![' '] + word + seq![' '] + name + seq![' '],
        opens_at(s, i),
        s[i + 1] == '%',
        i + inside.len() + 3 < s.len(),
        s.subrange(i + 2, i + 2 + inside.len()) == inside,
        s[i + 2 + inside.len()] == '%',
        s[i + 3 + inside.len()] == '}',
    ensures
        plain_tag(s, i),
        statement_at(s, i) != "elif"@,
{
    lemma_two_words(word, name, inside);
    lemma_inside(s, i, inside);
    let t = seq![TokenView::Word(word), TokenView::Word(name)];
    reveal_with_fuel(links_before, 3);
    assert(is_letter(word[0]) || word[0] == '_');
    assert(is_letter(name[0]) || name[0] == '_');
    assert(plain_token(t, 0));
    assert(plain_token(t, 1));
}

/// The words of the built-in statements are none that the rules speak of.
proof fn lemma_words()
    ensures
        ordinary("if"@),
        ordinary("endif"@),
{
    reveal_strlit("if");
    reveal_strlit("endif");
    reveal_strlit("elif");
    reveal_strlit("filter");
    reveal_strlit("is");
    reveal_strlit("block");
    reveal_strlit("macro");
    reveal_strlit("call");
    reveal_strlit("do");
    assert("if"@[1] != "is"@[1]);
    assert("if"@[0] != "do"@[0]);
    assert("endif"@[0] != "block"@[0]);
    assert("endif"@[0] != "macro"@[0]);
    assert("endif"@.len() == 5 && "elif"@.len() == 4 && "is"@.len() == 2);
}

proof fn lemma_system()
    ensures
        header_name(SYSTEM@) == "system"@,
        tame(body_of(SYSTEM@)),
{
    reveal_strlit("system");
    reveal_strlit(
        "#system
You are a helpful peer in one continuous conversation. Answer plainly and briefly.

Messages wrapped in <temporal_update> tell you the current time. Never mention them.
{% if summary %}
<earlier_conversation_context>
{{ summary }}
</earlier_conversation_context>
{% endif %}
{% if recalled %}
<recalled_conversation_context>
{{ recalled }}

Use this as silent background knowledge. Do not announce that recall happened.
</recalled_conversation_context>
{% endif %}
",
    );
    assert(SYSTEM@.subrange(1, 7) =~= "system"@);
    lemma_header(SYSTEM@, "system"@);
    reveal_strlit("if");
    reveal_strlit("endif");
    reveal_strlit("summary");
    reveal_strlit("recalled");
    reveal_strlit(" if summary ");
    reveal_strlit(" summary ");
    reveal_strlit(" endif ");
    reveal_strlit(" if recalled ");
    reveal_strlit(" recalled ");
    lemma_words();
    assert(SYSTEM@.subrange(179, 191) =~= " if summary "@);
    lemma_name_tag(SYSTEM@, 177, "if"@, "summary"@, " if summary "@);
    assert(SYSTEM@.subrange(227, 236) =~= " summary "@);
    lemma_value_tag(SYSTEM@, 225, "summary"@, " summary "@);
    assert(SYSTEM@.subrange(273, 280) =~= " endif "@);
    lemma_word_tag(SYSTEM@, 271, "endif"@, " endif "@);
    assert(SYSTEM@.subrange(285, 298) =~= " if recalled "@);
    lemma_name_tag(SYSTEM@, 283, "if"@, "recalled"@, " if recalled "@);
    assert(SYSTEM@.subrange(335, 345) =~= " recalled "@);
    lemma_value_tag(SYSTEM@, 333, "recalled"@, " recalled "@);
    assert(SYSTEM@.subrange(463, 470) =~= " endif "@);
    lemma_word_tag(SYSTEM@, 461, "endif"@, " endif "@);
    assert forall|i: int| #[trigger] opens_at(SYSTEM@, i) implies i == 177 || i == 225 || i == 271
        || i == 283 || i == 333 || i == 461 by {}
    lemma_short(SYSTEM@, 8);
}

proof fn lemma_summarize_base()
    ensures
        header_name(SUMMARIZE_BASE@) == "summarize_base"@,
        tame(body_of(SUMMARIZE_BASE@)),
{
    reveal_strlit("summarize_base");
    reveal_strlit(
        "#summarize_base
Summarise the conversation for a reader who will continue it. Keep names, decisions, open
questions and facts that were established. Write plain prose and add nothing.
",
    );
    assert(SUMMARIZE_BASE@.subrange(1, 15) =~= "summarize_base"@);
    lemma_header(SUMMARIZE_BASE@, "summarize_base"@);
    assert forall|i: int| !#[trigger] opens_at(SUMMARIZE_BASE@, i) by {}
    lemma_short(SUMMARIZE_BASE@, 16);
}

proof fn lemma_summarize_topic_shift()
    ensures
        header_name(SUMMARIZE_TOPIC_SHIFT@) == "summarize_topic_shift"@,
        tame(body_of(SUMMARIZE_TOPIC_SHIFT@)),
{
    reveal_strlit("summarize_topic_shift");
    reveal_strlit(
        "#summarize_topic_shift
The conversation has moved on to a new topic: {{ new_topic }}. Summarise the prior topic so
that it can be picked up again later.
",
    );
    assert(SUMMARIZE_TOPIC_SHIFT@.subrange(1, 22) =~= "summarize_topic_shift"@);
    lemma_header(SUMMARIZE_TOPIC_SHIFT@, "summarize_topic_shift"@);
    reveal_strlit("new_topic");
    reveal_strlit(" new_topic ");
    assert(SUMMARIZE_TOPIC_SHIFT@.subrange(71, 82) =~= " new_topic "@);
    lemma_value_tag(SUMMARIZE_TOPIC_SHIFT@, 69, "new_topic"@, " new_topic "@);
    assert forall|i: int| #[trigger] opens_at(SUMMARIZE_TOPIC_SHIFT@, i) implies i == 69 by {}
    lemma_short(SUMMARIZE_TOPIC_SHIFT@, 23);
}

proof fn lemma_summarize_compaction()
    ensures
        header_name(SUMMARIZE_COMPACTION@) == "summarize_compaction"@,
        tame(body_of(SUMMARIZE_COMPACTION@)),
{
    reveal_strlit("summarize_compaction");
    reveal_strlit(
        "#summarize_compaction
The conversation goes on and no longer fits. Summarise it so that nothing needed to continue
the current thread is lost.
",
    );
    assert(SUMMARIZE_COMPACTION@.subrange(1, 21) =~= "summarize_compaction"@);
    lemma_header(SUMMARIZE_COMPACTION@, "summarize_compaction"@);
    assert forall|i: int| !#[trigger] opens_at(SUMMARIZE_COMPACTION@, i) by {}
    lemma_short(SUMMARIZE_COMPACTION@, 22);
}

proof fn lemma_detect_topic_shift()
    ensures
        header_name(DETECT_TOPIC_SHIFT@) == "detect_topic_shift"@,
        tame(body_of(DETECT_TOPIC_SHIFT@)),
{
    reveal_strlit("detect_topic_shift");
    reveal_strlit(
        "#detect_topic_shift
Decide whether the last message moves the conversation to a new topic. Prefer to stay on the
topic when in doubt. Reply with a JSON object: shifted (boolean), new_topic (string or null)
and at_message_index (number or null, counted from 0).
",
    );
    assert(DETECT_TOPIC_SHIFT@.subrange(1, 19) =~= "detect_topic_shift"@);
    lemma_header(DETECT_TOPIC_SHIFT@, "detect_topic_shift"@);
    assert forall|i: int| !#[trigger] opens_at(DETECT_TOPIC_SHIFT@, i) by {}
    lemma_short(DETECT_TOPIC_SHIFT@, 20);
}

/// Every name that the adapter asks for is the name of a built-in template.
pub proof fn law_built_in_names()
    ensures
        built_in().contains_key("system"@),
        built_in()["system"@] == SYSTEM@,
        built_in().contains_key("summarize_base"@),
        built_in()["summarize_base"@] == SUMMARIZE_BASE@,
        built_in().contains_key("summarize_topic_shift"@),
        built_in()["summarize_topic_shift"@] == SUMMARIZE_TOPIC_SHIFT@,
        built_in().contains_key("summarize_compaction"@),
        built_in()["summarize_compaction"@] == SUMMARIZE_COMPACTION@,
        built_in().contains_key("detect_topic_shift"@),
        built_in()["detect_topic_shift"@] == DETECT_TOPIC_SHIFT@,
{
    lemma_names_differ();
    lemma_system();
    lemma_summarize_base();
    lemma_summarize_topic_shift();
    lemma_summarize_compaction();
    lemma_detect_topic_shift();
}

proof fn lemma_names_differ()
    ensures
        "system"@ != "summarize_base"@,
        "system"@ != "summarize_topic_shift"@,
        "system"@ != "summarize_compaction"@,
        "system"@ != "detect_topic_shift"@,
        "summarize_base"@ != "summarize_topic_shift"@,
        "summarize_base"@ != "summarize_compaction"@,
        "summarize_base"@ != "detect_topic_shift"@,
        "summarize_topic_shift"@ != "summarize_compaction"@,
        "summarize_topic_shift"@ != "detect_topic_shift"@,
        "summarize_compaction"@ != "detect_topic_shift"@,
{
    reveal_strlit("system");
    reveal_strlit("summarize_base");
    reveal_strlit("summarize_topic_shift");
    reveal_strlit("summarize_compaction");
    reveal_strlit("detect_topic_shift");
    assert("system"@.len() == 6);
    assert("summarize_base"@.len() == 14);
    assert("summarize_topic_shift"@.len() == 21);
    assert("summarize_compaction"@.len() == 20);
    assert("detect_topic_shift"@.len() == 18);
}

/// Adding the built-in templates to tame ones leaves all of them tame.
pub proof fn law_built_in_is_tame(templates: Map<Seq<char>, Seq<char>>)
    requires
        all_tame(templates),
    ensures
        all_tame(with_built_in(templates)),
        all_tame(built_in()),
{
    lemma_system();
    lemma_summarize_base();
    lemma_summarize_topic_shift();
    lemma_summarize_compaction();
    lemma_detect_topic_shift();
    let with = with_built_in(templates);
    assert forall|name: Seq<char>| #[trigger] tame_under(with, name) by {
        assert(tame_under(templates, name));
    }
    assert forall|name: Seq<char>| #[trigger] tame_under(built_in(), name) by {}
}

impl Default for EmbeddedPromptRegistry {
    fn default() -> (r: Self)
        ensures
            r.templates() == built_in(),
            all_tame(r.templates()),
    {
        Self::new()
    }
}

impl PromptRegistry for EmbeddedPromptRegistry {
    open spec fn templates(&self) -> Map<Seq<char>, Seq<char>> {
        self.held()
    }

    fn get(&self, name: &str) -> (r: Option<&PromptTemplate>) {
        self.table.get(name)
    }

    fn names(&self) -> (r: Vec<&str>) {
        self.table.names()
    }
}

} // verus!
