//! Which templates can be rendered without harm.
//!
//! The template engine panics on some templates. The filters `batch`, `slice`
//! and `indent` reserve room for as many items as they are told, and `format`
//! prints with the widths that a text names. The test `divisibleby` divides
//! by its argument. The filters `map`, `select` and their like call a filter
//! or a test by the name in a value. A slice can go backwards through an empty
//! text, and a list can be repeated or doubled beyond any size. A loop can be
//! cycled through nothing, and a range can step back beyond the integers. The
//! engine also takes stack frames for every operator of an expression, for
//! every `elif` of a conditional and for every list within a list. A template
//! is tame if its tags have none of this. What stands outside the tags is
//! free.

use vstd::prelude::*;
use vstd::string::*;

use crate::text::{chars_of, same, string_of};

verus! {

/// How many characters a tame body has at most. The engine counts bytes in
/// thirty-two bits.
pub const MAX_BODY: usize = 1_000_000_000;

/// How many characters a line of a tame body has at most. The engine counts
/// columns in sixteen bits.
pub const MAX_LINE: usize = 65_000;

/// How many `elif` a conditional of a tame body has at most, with those of the
/// conditionals within it. The engine parses each within the one before.
pub const MAX_ELIFS: usize = 400;

/// How many operators a plain tag has at most. The engine compiles each within
/// the next.
pub const MAX_LINKS: usize = 250;

// ---------------------------------------------------------------------------
// The tokens of a tag
// ---------------------------------------------------------------------------

/// A token within a tag.
#[verifier::ext_equal]
pub enum TokenView {
    /// A name, a keyword or a number.
    Word(Seq<char>),
    /// A quoted text.
    Text,
    /// One of `==`, `!=`, `<=` and `>=`.
    Compare,
    Sign(char),
}

pub open spec fn is_digit(c: char) -> bool {
    '0' <= c <= '9'
}

pub open spec fn is_letter(c: char) -> bool {
    'a' <= c <= 'z' || 'A' <= c <= 'Z'
}

pub open spec fn is_word_char(c: char) -> bool {
    is_letter(c) || is_digit(c) || c == '_'
}

pub open spec fn is_blank(c: char) -> bool {
    c == ' ' || c == '\t' || c == '\r' || c == '\n' || c == '\x0C'
}

/// The first position from `i` on that holds no character of a word.
pub open spec fn word_end(s: Seq<char>, i: int) -> int
    decreases s.len() - i,
{
    if i < s.len() && is_word_char(s[i]) {
        word_end(s, i + 1)
    } else {
        i
    }
}

/// The first position from `i` on that holds a quote, or the end.
pub open spec fn text_end(s: Seq<char>, i: int, quote: char) -> int
    decreases s.len() - i,
{
    if i < s.len() && s[i] != quote {
        text_end(s, i + 1, quote)
    } else {
        i
    }
}

/// Whether a quoted text is plain: without braces and escapes.
pub open spec fn plain_text(s: Seq<char>, from: int, to: int) -> bool {
    forall|i: int| from <= i < to ==> #[trigger] s[i] != '{' && s[i] != '}' && s[i] != '\\'
}

/// The token at a position, if it is not a blank, and the position behind it.
/// Nothing for a text that is not closed or not plain.
pub open spec fn token_at(s: Seq<char>, i: int) -> Option<(Option<TokenView>, int)> {
    let c = s[i];
    if is_blank(c) {
        Some((None, i + 1))
    } else if is_word_char(c) {
        Some((Some(TokenView::Word(s.subrange(i, word_end(s, i)))), word_end(s, i)))
    } else if c == '"' || c == '\'' {
        let end = text_end(s, i + 1, c);
        if end < s.len() && plain_text(s, i + 1, end) {
            Some((Some(TokenView::Text), end + 1))
        } else {
            None
        }
    } else if (c == '=' || c == '!' || c == '<' || c == '>') && i + 1 < s.len() && s[i + 1]
        == '=' {
        Some((Some(TokenView::Compare), i + 2))
    } else {
        Some((Some(TokenView::Sign(c)), i + 1))
    }
}

/// A token in front of others.
pub open spec fn in_front(
    token: Option<TokenView>,
    rest: Option<Seq<TokenView>>,
) -> Option<Seq<TokenView>> {
    match rest {
        Some(rest) => Some(
            match token {
                Some(token) => seq![token] + rest,
                None => rest,
            },
        ),
        None => None,
    }
}

/// The tokens from a position on.
pub open spec fn tokens_from(s: Seq<char>, i: int) -> Option<Seq<TokenView>>
    decreases s.len() - i,
{
    if i >= s.len() {
        Some(Seq::empty())
    } else {
        match token_at(s, i) {
            Some((token, next)) => if i < next <= s.len() {
                in_front(token, tokens_from(s, next))
            } else {
                None
            },
            None => None,
        }
    }
}

// ---------------------------------------------------------------------------
// What a plain tag is
// ---------------------------------------------------------------------------

/// The filters that can do harm: they reserve room by an argument, print with
/// widths from a text, call by a name in a value, or put lists into lists.
pub open spec fn harmful_filter(name: Seq<char>) -> bool {
    ||| name == "format"@
    ||| name == "batch"@
    ||| name == "slice"@
    ||| name == "indent"@
    ||| name == "map"@
    ||| name == "select"@
    ||| name == "selectattr"@
    ||| name == "reject"@
    ||| name == "rejectattr"@
    ||| name == "chain"@
    ||| name == "zip"@
    ||| name == "groupby"@
}

/// The statements that make a part of the template a function.
pub open spec fn harmful_statement(word: Seq<char>) -> bool {
    word == "block"@ || word == "macro"@ || word == "call"@ || word == "do"@
}

pub open spec fn is_word(t: TokenView, word: Seq<char>) -> bool {
    t == TokenView::Word(word)
}

/// Whether a token names a filter: it stands behind a bar, or opens a filter
/// statement.
pub open spec fn names_filter(t: Seq<TokenView>, i: int) -> bool {
    0 < i && t[i] is Word && (t[i - 1] == TokenView::Sign('|') || is_word(t[i - 1], "filter"@))
}

/// Whether a token names a test: it stands behind `is` or `is not`.
pub open spec fn names_test(t: Seq<TokenView>, i: int) -> bool {
    0 < i && t[i] is Word && (is_word(t[i - 1], "is"@) || (1 < i && is_word(t[i - 1], "not"@)
        && is_word(t[i - 2], "is"@)))
}

/// Whether a word that opens with a digit is a number, and so ends where the
/// number does.
pub open spec fn whole_number(word: Seq<char>) -> bool {
    word.len() > 0 && is_digit(word[0]) ==> forall|i: int|
        0 <= i < word.len() ==> is_digit(#[trigger] word[i]) || word[i] == '_'
}

/// How many more brackets open than close before the position `n`.
pub open spec fn depth_before(t: Seq<TokenView>, n: int) -> int
    decreases n,
{
    if n <= 0 {
        0
    } else {
        depth_before(t, n - 1) + if t[n - 1] == TokenView::Sign('(') {
            1int
        } else if t[n - 1] == TokenView::Sign(')') {
            -1int
        } else {
            0int
        }
    }
}

/// The word that a tag opens with, behind the sign that trims.
pub open spec fn keyword(t: Seq<TokenView>) -> Seq<char> {
    let i = if t.len() > 0 && (t[0] == TokenView::Sign('-') || t[0] == TokenView::Sign('+')) {
        1int
    } else {
        0int
    };
    if i < t.len() {
        match t[i] {
            TokenView::Word(word) => word,
            _ => Seq::empty(),
        }
    } else {
        Seq::empty()
    }
}

/// Whether a token is a literal: a quoted text or a whole number.
pub open spec fn is_literal(t: TokenView) -> bool {
    match t {
        TokenView::Word(word) => word.len() > 0 && is_digit(word[0]),
        TokenView::Text => true,
        _ => false,
    }
}

/// Whether a `+` at a position adds to a literal, which is no list: the
/// literal stands before it and is no member, or stands behind it and is not
/// read any further.
pub open spec fn adds_literal(t: Seq<TokenView>, i: int) -> bool {
    ||| 0 < i && is_literal(t[i - 1]) && !(1 < i && t[i - 2] == TokenView::Sign('.'))
    ||| i + 1 < t.len() && is_literal(t[i + 1]) && !(i + 2 < t.len() && (t[i + 2]
        == TokenView::Sign('|') || t[i + 2] == TokenView::Sign('.') || t[i + 2]
        == TokenView::Sign('[') || t[i + 2] is Text))
}

/// Whether a sign stands at a position.
pub open spec fn sign_at(t: Seq<TokenView>, i: int, sign: char) -> bool {
    0 <= i < t.len() && t[i] == TokenView::Sign(sign)
}

/// The position behind the operand at a position: a word or a text, or a word
/// behind a minus. The position itself if there is none.
pub open spec fn operand_end(t: Seq<TokenView>, i: int) -> int {
    if 0 <= i < t.len() && (t[i] is Word || t[i] is Text) {
        i + 1
    } else if sign_at(t, i, '-') && i + 1 < t.len() && t[i + 1] is Word {
        i + 2
    } else {
        i
    }
}

/// Whether a bracket at a position holds the arguments of a filter or a test.
pub open spec fn opens_arguments(t: Seq<TokenView>, i: int) -> bool {
    0 < i && t[i - 1] is Word && (sign_at(t, i - 2, '|') || names_test(t, i - 1))
}

/// Whether a bracket at a position calls `range` with one or two operands, or
/// `cycle` with at least one.
pub open spec fn opens_call(t: Seq<TokenView>, i: int) -> bool {
    let first = operand_end(t, i + 1);
    let second = operand_end(t, first + 1);
    &&& 0 < i
    &&& first > i + 1
    &&& {
        ||| is_word(t[i - 1], "range"@) && (sign_at(t, first, ')') || (sign_at(t, first, ',')
            && second > first + 1 && sign_at(t, second, ')')))
        ||| is_word(t[i - 1], "cycle"@) && sign_at(t, i - 2, '.')
    }
}

/// Whether a word stands between expressions.
pub open spec fn is_joint(t: TokenView) -> bool {
    is_word(t, "if"@) || is_word(t, "elif"@) || is_word(t, "else"@) || is_word(t, "and"@)
        || is_word(t, "or"@) || is_word(t, "not"@) || is_word(t, "in"@)
}

/// Whether a value ends before a position.
pub open spec fn value_before(t: Seq<TokenView>, i: int) -> bool {
    0 < i && match t[i - 1] {
        TokenView::Word(_) => !is_joint(t[i - 1]),
        TokenView::Text => true,
        TokenView::Compare => false,
        TokenView::Sign(c) => c == ')' || c == ']',
    }
}

/// Whether a bracket at a position groups an expression.
pub open spec fn opens_group(t: Seq<TokenView>, i: int) -> bool {
    t[i] == TokenView::Sign('(') && !value_before(t, i)
}

/// Whether a bracket groups an expression.
pub open spec fn has_group(t: Seq<TokenView>) -> bool {
    exists|i: int| 0 <= i < t.len() && #[trigger] opens_group(t, i)
}

/// Whether a bracket at a position holds an index.
pub open spec fn opens_index(t: Seq<TokenView>, i: int) -> bool {
    let end = operand_end(t, i + 1);
    value_before(t, i) && end > i + 1 && sign_at(t, end, ']')
}

/// Whether a bracket at a position holds the bounds of a slice, without a
/// step.
pub open spec fn opens_slice(t: Seq<TokenView>, i: int) -> bool {
    let colon = operand_end(t, i + 1);
    value_before(t, i) && sign_at(t, colon, ':') && sign_at(t, operand_end(t, colon + 1), ']')
}

/// Whether the rest of a list from a position on has operands alone.
pub open spec fn flat_from(t: Seq<TokenView>, i: int) -> bool
    decreases t.len() - i,
{
    let end = operand_end(t, i);
    end > i && (sign_at(t, end, ']') || (sign_at(t, end, ',') && flat_from(t, end + 1)))
}

/// Whether a bracket at a position holds a list of operands.
pub open spec fn opens_list(t: Seq<TokenView>, i: int) -> bool {
    !value_before(t, i) && (sign_at(t, i + 1, ']') || flat_from(t, i + 1))
}

/// Whether a tag gives a value a name, by which it can be used over and over.
pub open spec fn stores(t: Seq<TokenView>) -> bool {
    keyword(t) == "set"@ || keyword(t) == "with"@
}

/// Whether a token is plain where it stands. Lists are not put together: a `+`
/// adds to a literal, or keeps the blanks beside a tag; no list and no slice
/// gets a name; a bracket that groups holds one expression, so that no comma
/// stands beside it; and no comma stands on the right of a `set`. Arguments
/// are given by position.
pub open spec fn plain_token(t: Seq<TokenView>, i: int) -> bool {
    match t[i] {
        TokenView::Word(word) => {
            &&& whole_number(word)
            &&& names_filter(t, i) ==> !harmful_filter(word)
            &&& names_test(t, i) ==> word != "divisibleby"@
        },
        TokenView::Text => true,
        TokenView::Compare => true,
        TokenView::Sign(c) => {
            &&& c != '{' && c != '*' && c != '\\'
            &&& c == '+' ==> i == 0 || i == t.len() - 1 || adds_literal(t, i)
            &&& c == '(' ==> opens_arguments(t, i) || opens_call(t, i) || opens_group(t, i)
            &&& c == '[' ==> opens_index(t, i) || (!stores(t) && (opens_slice(t, i) || opens_list(
                t,
                i,
            )))
            &&& c == '=' ==> depth_before(t, i) == 0
            &&& c == ',' ==> !has_group(t)
            &&& c == ',' && keyword(t) == "set"@ ==> depth_before(t, i) > 0
        },
    }
}

/// Whether a token links expressions to a longer one.
pub open spec fn is_link(t: TokenView) -> bool {
    match t {
        TokenView::Word(word) => word == "not"@ || word == "and"@ || word == "or"@ || word == "if"@
            || word == "is"@ || word == "in"@,
        TokenView::Text => false,
        TokenView::Compare => true,
        TokenView::Sign(_) => true,
    }
}

/// How many of the first `n` tokens are links.
pub open spec fn links_before(t: Seq<TokenView>, n: int) -> nat
    decreases n,
{
    if n <= 0 {
        0
    } else {
        links_before(t, n - 1) + if is_link(t[n - 1]) {
            1nat
        } else {
            0nat
        }
    }
}

/// Whether tokens make a plain tag.
pub open spec fn plain_tokens(t: Seq<TokenView>, statement: bool) -> bool {
    &&& forall|i: int| 0 <= i < t.len() ==> #[trigger] plain_token(t, i)
    &&& links_before(t, t.len() as int) <= MAX_LINKS
    &&& statement ==> !harmful_statement(keyword(t))
}

/// Whether the inside of a tag is plain.
pub open spec fn plain_inside(inside: Seq<char>, statement: bool) -> bool {
    tokens_from(inside, 0) matches Some(t) && plain_tokens(t, statement)
}

/// Whether a tag opens at a position: `{{` for a value, `{%` for a statement.
pub open spec fn opens_at(s: Seq<char>, i: int) -> bool {
    0 <= i && i + 1 < s.len() && s[i] == '{' && (s[i + 1] == '{' || s[i + 1] == '%')
}

/// The first position from `i` on that holds a `}`, or the end.
pub open spec fn close_from(s: Seq<char>, i: int) -> int
    decreases s.len() - i,
{
    if i >= s.len() || s[i] == '}' {
        i
    } else {
        close_from(s, i + 1)
    }
}

/// The inside of the tag that opens at `i` and is closed.
pub open spec fn inside_of(s: Seq<char>, i: int) -> Option<Seq<char>> {
    let end = close_from(s, i + 2);
    if s[i + 1] == '{' {
        if end + 1 < s.len() && s[end + 1] == '}' {
            Some(s.subrange(i + 2, end))
        } else {
            None
        }
    } else if end < s.len() && i + 2 < end && s[end - 1] == '%' {
        Some(s.subrange(i + 2, end - 1))
    } else {
        None
    }
}

/// Whether the tag that opens at `i` is closed and plain.
pub open spec fn plain_tag(s: Seq<char>, i: int) -> bool {
    inside_of(s, i) matches Some(inside) && plain_inside(inside, s[i + 1] == '%')
}

/// The word that the statement at a position opens with. Nothing where none
/// opens.
pub open spec fn statement_at(s: Seq<char>, i: int) -> Seq<char> {
    if opens_at(s, i) && s[i + 1] == '%' {
        match inside_of(s, i) {
            Some(inside) => match tokens_from(inside, 0) {
                Some(t) => keyword(t),
                None => Seq::empty(),
            },
            None => Seq::empty(),
        }
    } else {
        Seq::empty()
    }
}

/// Whether a comment opens at a position, or a part that is printed as it is.
pub open spec fn skips_at(s: Seq<char>, i: int) -> bool {
    (s[i] == '{' && i + 1 < s.len() && s[i + 1] == '#') || statement_at(s, i) == "raw"@
}

/// Whether a tag that opens in a body may be passed over.
pub open spec fn passes_over(s: Seq<char>) -> bool {
    exists|i: int| 0 <= i < s.len() && #[trigger] skips_at(s, i)
}

/// How many conditionals are open before the position `n`, and how many `elif`
/// were read. Behind a conditional that stands in no other the count starts
/// anew, if no tag is passed over.
pub open spec fn branches(s: Seq<char>, n: int) -> (nat, nat)
    decreases n,
{
    if n <= 0 {
        (0, 0)
    } else {
        let (depth, elifs) = branches(s, n - 1);
        let word = statement_at(s, n - 1);
        if word == "if"@ {
            (depth + 1, elifs)
        } else if word == "elif"@ {
            (depth, elifs + 1)
        } else if word == "endif"@ && depth > 0 {
            (
                (depth - 1) as nat,
                if depth == 1 && !passes_over(s) {
                    0
                } else {
                    elifs
                },
            )
        } else {
            (depth, elifs)
        }
    }
}

/// How many characters stand before the position `n` on its line.
pub open spec fn column(s: Seq<char>, n: int) -> nat
    decreases n,
{
    if n <= 0 || s[n - 1] == '\n' {
        0
    } else {
        column(s, n - 1) + 1
    }
}

/// Whether a body can be rendered without harm.
pub open spec fn tame(body: Seq<char>) -> bool {
    &&& body.len() <= MAX_BODY
    &&& forall|n: int| 0 <= n <= body.len() ==> #[trigger] column(body, n) <= MAX_LINE
    &&& forall|n: int| 0 <= n <= body.len() ==> (#[trigger] branches(body, n)).1 <= MAX_ELIFS
    &&& forall|i: int| #[trigger] opens_at(body, i) ==> plain_tag(body, i)
}

// ---------------------------------------------------------------------------
// Reading tokens
// ---------------------------------------------------------------------------

/// A token within a tag.
#[derive(Debug)]
pub enum Token {
    Word(String),
    Text,
    Compare,
    Sign(char),
}

impl View for Token {
    type V = TokenView;

    open spec fn view(&self) -> TokenView {
        match *self {
            Token::Word(word) => TokenView::Word(word@),
            Token::Text => TokenView::Text,
            Token::Compare => TokenView::Compare,
            Token::Sign(c) => TokenView::Sign(c),
        }
    }
}

impl DeepView for Token {
    type V = TokenView;

    open spec fn deep_view(&self) -> TokenView {
        self@
    }
}

fn digit(c: char) -> (r: bool)
    ensures
        r == is_digit(c),
{
    '0' <= c && c <= '9'
}

fn word_char(c: char) -> (r: bool)
    ensures
        r == is_word_char(c),
{
    ('a' <= c && c <= 'z') || ('A' <= c && c <= 'Z') || digit(c) || c == '_'
}

fn blank(c: char) -> (r: bool)
    ensures
        r == is_blank(c),
{
    c == ' ' || c == '\t' || c == '\r' || c == '\n' || c == '\x0C'
}

fn find_word_end(s: &Vec<char>, from: usize) -> (r: usize)
    requires
        from <= s@.len(),
    ensures
        r == word_end(s@, from as int),
        from <= r <= s@.len(),
        from < s@.len() && is_word_char(s@[from as int]) ==> from < r,
{
    let mut i: usize = from;
    while i < s.len() && word_char(s[i])
        invariant
            from <= i <= s@.len(),
            word_end(s@, from as int) == word_end(s@, i as int),
        decreases s@.len() - i,
    {
        i += 1;
    }
    i
}

fn find_text_end(s: &Vec<char>, from: usize, quote: char) -> (r: (usize, bool))
    requires
        from <= s@.len(),
    ensures
        r.0 == text_end(s@, from as int, quote),
        from <= r.0 <= s@.len(),
        r.1 == plain_text(s@, from as int, r.0 as int),
{
    let mut plain = true;
    let mut i: usize = from;
    while i < s.len() && s[i] != quote
        invariant
            from <= i <= s@.len(),
            text_end(s@, from as int, quote) == text_end(s@, i as int, quote),
            plain == plain_text(s@, from as int, i as int),
        decreases s@.len() - i,
    {
        let c = s[i];
        if c == '{' || c == '}' || c == '\\' {
            plain = false;
            assert(s@[i as int] == c);
        }
        i += 1;
    }
    (i, plain)
}

fn read_token(s: &Vec<char>, i: usize) -> (r: Option<(Option<Token>, usize)>)
    requires
        i < s@.len(),
    ensures
        match r {
            Some((token, next)) => token_at(s@, i as int) == Some(
                (token.deep_view(), next as int),
            ) && i < next <= s@.len(),
            None => token_at(s@, i as int) is None,
        },
{
    let c = s[i];
    let n: usize = s.len();
    if blank(c) {
        Some((None, i + 1))
    } else if word_char(c) {
        let end = find_word_end(s, i);
        Some((Some(Token::Word(string_of(s, i, end))), end))
    } else if c == '"' || c == '\'' {
        let (end, plain) = find_text_end(s, i + 1, c);
        if end < n && plain {
            Some((Some(Token::Text), end + 1))
        } else {
            None
        }
    } else if (c == '=' || c == '!' || c == '<' || c == '>') && i + 1 < n && s[i + 1] == '=' {
        Some((Some(Token::Compare), i + 2))
    } else {
        Some((Some(Token::Sign(c)), i + 1))
    }
}

/// The tokens so far, and those still to come.
spec fn together(
    done: Seq<TokenView>,
    rest: Option<Seq<TokenView>>,
) -> Option<Seq<TokenView>> {
    match rest {
        Some(rest) => Some(done + rest),
        None => None,
    }
}

fn read_tokens(s: &Vec<char>) -> (r: Option<Vec<Token>>)
    ensures
        r.deep_view() == tokens_from(s@, 0),
{
    let mut done: Vec<Token> = Vec::new();
    let mut i: usize = 0;
    proof {
        let all = tokens_from(s@, 0);
        if all is Some {
            assert(done.deep_view() + all->0 =~= all->0);
        }
    }
    while i < s.len()
        invariant
            i <= s@.len(),
            tokens_from(s@, 0) == together(done.deep_view(), tokens_from(s@, i as int)),
        decreases s@.len() - i,
    {
        let ghost before = done.deep_view();
        match read_token(s, i) {
            None => {
                return None;
            },
            Some((token, next)) => {
                let ghost rest = tokens_from(s@, next as int);
                match token {
                    Some(token) => {
                        let ghost added = token@;
                        done.push(token);
                        proof {
                            assert(done.deep_view() =~= before.push(added));
                            if rest is Some {
                                assert(before + (seq![added] + rest->0) =~= done.deep_view()
                                    + rest->0);
                            }
                        }
                    },
                    None => {},
                }
                i = next;
            },
        }
    }
    assert(done.deep_view() + Seq::<TokenView>::empty() =~= done.deep_view());
    Some(done)
}

// ---------------------------------------------------------------------------
// Testing tokens
// ---------------------------------------------------------------------------

fn is_harmful_filter(name: &str) -> (r: bool)
    ensures
        r == harmful_filter(name@),
{
    same(name, "format") || same(name, "batch") || same(name, "slice") || same(name, "indent")
        || same(name, "map") || same(name, "select") || same(name, "selectattr") || same(
        name,
        "reject",
    ) || same(name, "rejectattr") || same(name, "chain") || same(name, "zip") || same(
        name,
        "groupby",
    )
}

fn is_harmful_statement(word: &str) -> (r: bool)
    ensures
        r == harmful_statement(word@),
{
    same(word, "block") || same(word, "macro") || same(word, "call") || same(word, "do")
}

fn token_is_word(t: &Token, word: &str) -> (r: bool)
    ensures
        r == is_word(t@, word@),
{
    match t {
        Token::Word(w) => same(w.as_str(), word),
        _ => false,
    }
}

fn token_is_sign(t: &Token, sign: char) -> (r: bool)
    ensures
        r == (t@ == TokenView::Sign(sign)),
{
    match t {
        Token::Sign(c) => *c == sign,
        _ => false,
    }
}

fn token_names_filter(t: &Vec<Token>, i: usize) -> (r: bool)
    requires
        i < t@.len(),
        t@[i as int]@ is Word,
    ensures
        r == names_filter(t.deep_view(), i as int),
{
    0 < i && (token_is_sign(&t[i - 1], '|') || token_is_word(&t[i - 1], "filter"))
}

fn token_names_test(t: &Vec<Token>, i: usize) -> (r: bool)
    requires
        i < t@.len(),
        t@[i as int]@ is Word,
    ensures
        r == names_test(t.deep_view(), i as int),
{
    0 < i && (token_is_word(&t[i - 1], "is") || (1 < i && token_is_word(&t[i - 1], "not")
        && token_is_word(&t[i - 2], "is")))
}

fn is_whole_number(word: &str) -> (r: bool)
    ensures
        r == whole_number(word@),
{
    let s = chars_of(word);
    if s.len() == 0 || !digit(s[0]) {
        return true;
    }
    let mut i: usize = 0;
    while i < s.len()
        invariant
            i <= s@.len(),
            s@ == word@,
            s@.len() > 0,
            is_digit(s@[0]),
            forall|k: int| 0 <= k < i ==> is_digit(#[trigger] s@[k]) || s@[k] == '_',
        decreases s@.len() - i,
    {
        if !digit(s[i]) && s[i] != '_' {
            return false;
        }
        i += 1;
    }
    true
}

fn read_keyword(t: &Vec<Token>) -> (r: String)
    ensures
        r@ == keyword(t.deep_view()),
{
    let i: usize = if t.len() > 0 && (token_is_sign(&t[0], '-') || token_is_sign(&t[0], '+')) {
        1
    } else {
        0
    };
    if i < t.len() {
        match &t[i] {
            Token::Word(word) => word.clone(),
            _ => String::new(),
        }
    } else {
        String::new()
    }
}

fn token_is_literal(t: &Token) -> (r: bool)
    ensures
        r == is_literal(t@),
{
    match t {
        Token::Word(word) => {
            let s = chars_of(word.as_str());
            s.len() > 0 && digit(s[0])
        },
        Token::Text => true,
        _ => false,
    }
}

fn token_is_text(t: &Token) -> (r: bool)
    ensures
        r == (t@ is Text),
{
    match t {
        Token::Text => true,
        _ => false,
    }
}

fn sign_adds_literal(t: &Vec<Token>, i: usize) -> (r: bool)
    requires
        i < t@.len(),
    ensures
        r == adds_literal(t.deep_view(), i as int),
{
    let n: usize = t.len();
    if 0 < i && token_is_literal(&t[i - 1]) && !(1 < i && token_is_sign(&t[i - 2], '.')) {
        return true;
    }
    if n - i < 2 || !token_is_literal(&t[i + 1]) {
        return false;
    }
    n - i < 3 || !(token_is_sign(&t[i + 2], '|') || token_is_sign(&t[i + 2], '.') || token_is_sign(
        &t[i + 2],
        '[',
    ) || token_is_text(&t[i + 2]))
}

fn has_sign(t: &Vec<Token>, i: usize, sign: char) -> (r: bool)
    ensures
        r == sign_at(t.deep_view(), i as int, sign),
{
    i < t.len() && token_is_sign(&t[i], sign)
}

fn token_is_operand(t: &Token) -> (r: bool)
    ensures
        r == (t@ is Word || t@ is Text),
{
    match t {
        Token::Word(_) => true,
        Token::Text => true,
        _ => false,
    }
}

fn find_operand_end(t: &Vec<Token>, i: usize) -> (r: usize)
    requires
        i <= t@.len(),
    ensures
        r == operand_end(t.deep_view(), i as int),
        i <= r <= t@.len(),
{
    let n: usize = t.len();
    if i < n && token_is_operand(&t[i]) {
        return i + 1;
    }
    if n - i >= 2 && token_is_sign(&t[i], '-') {
        assert(t.deep_view()[i + 1] == t@[i + 1]@);
        match &t[i + 1] {
            Token::Word(_) => {
                return i + 2;
            },
            _ => {},
        }
    }
    i
}

fn bracket_opens_arguments(t: &Vec<Token>, i: usize) -> (r: bool)
    requires
        i < t@.len(),
    ensures
        r == opens_arguments(t.deep_view(), i as int),
{
    if i == 0 {
        return false;
    }
    assert(t.deep_view()[i - 1] == t@[i - 1]@);
    match &t[i - 1] {
        Token::Word(_) => (1 < i && has_sign(t, i - 2, '|')) || token_names_test(t, i - 1),
        _ => false,
    }
}

fn bracket_opens_call(t: &Vec<Token>, i: usize) -> (r: bool)
    requires
        i < t@.len(),
    ensures
        r == opens_call(t.deep_view(), i as int),
{
    let n: usize = t.len();
    if i == 0 {
        return false;
    }
    let first = find_operand_end(t, i + 1);
    if first == i + 1 {
        return false;
    }
    if token_is_word(&t[i - 1], "range") {
        if has_sign(t, first, ')') {
            return true;
        }
        if has_sign(t, first, ',') {
            assert(first < n);
            let second = find_operand_end(t, first + 1);
            if second > first + 1 && has_sign(t, second, ')') {
                return true;
            }
        }
    }
    1 < i && token_is_word(&t[i - 1], "cycle") && has_sign(t, i - 2, '.')
}

fn token_is_joint(t: &Token) -> (r: bool)
    ensures
        r == is_joint(t@),
{
    token_is_word(t, "if") || token_is_word(t, "elif") || token_is_word(t, "else") || token_is_word(
        t,
        "and",
    ) || token_is_word(t, "or") || token_is_word(t, "not") || token_is_word(t, "in")
}

fn value_ends_before(t: &Vec<Token>, i: usize) -> (r: bool)
    requires
        i < t@.len(),
    ensures
        r == value_before(t.deep_view(), i as int),
{
    if i == 0 {
        return false;
    }
    assert(t.deep_view()[i - 1] == t@[i - 1]@);
    match &t[i - 1] {
        Token::Word(_) => !token_is_joint(&t[i - 1]),
        Token::Text => true,
        Token::Compare => false,
        Token::Sign(c) => *c == ')' || *c == ']',
    }
}

fn bracket_opens_group(t: &Vec<Token>, i: usize) -> (r: bool)
    requires
        i < t@.len(),
    ensures
        r == opens_group(t.deep_view(), i as int),
{
    token_is_sign(&t[i], '(') && !value_ends_before(t, i)
}

fn tokens_have_group(t: &Vec<Token>) -> (r: bool)
    ensures
        r == has_group(t.deep_view()),
{
    let mut i: usize = 0;
    while i < t.len()
        invariant
            i <= t@.len(),
            forall|k: int| 0 <= k < i ==> !#[trigger] opens_group(t.deep_view(), k),
        decreases t@.len() - i,
    {
        if bracket_opens_group(t, i) {
            return true;
        }
        i += 1;
    }
    false
}

fn list_is_flat(t: &Vec<Token>, from: usize) -> (r: bool)
    requires
        from <= t@.len(),
    ensures
        r == flat_from(t.deep_view(), from as int),
{
    let n: usize = t.len();
    let mut i: usize = from;
    loop
        invariant
            i <= n,
            n == t@.len(),
            flat_from(t.deep_view(), from as int) == flat_from(t.deep_view(), i as int),
        decreases t@.len() - i,
    {
        let end = find_operand_end(t, i);
        if end == i {
            return false;
        }
        if has_sign(t, end, ']') {
            return true;
        }
        if !has_sign(t, end, ',') {
            return false;
        }
        i = end + 1;
    }
}

fn bracket_is_plain(t: &Vec<Token>, i: usize, storing: bool) -> (r: bool)
    requires
        i < t@.len(),
    ensures
        r == (opens_index(t.deep_view(), i as int) || (!storing && (opens_slice(
            t.deep_view(),
            i as int,
        ) || opens_list(t.deep_view(), i as int)))),
{
    let n: usize = t.len();
    assert(i < n);
    let end = find_operand_end(t, i + 1);
    if value_ends_before(t, i) {
        if end > i + 1 && has_sign(t, end, ']') {
            return true;
        }
        if storing || !has_sign(t, end, ':') {
            return false;
        }
        let close = find_operand_end(t, end + 1);
        has_sign(t, close, ']')
    } else {
        !storing && (has_sign(t, i + 1, ']') || list_is_flat(t, i + 1))
    }
}

/// What the tokens of a tag have to do with each other.
struct Shape {
    /// Whether a bracket groups an expression.
    grouped: bool,
    in_set: bool,
    storing: bool,
}

impl Shape {
    spec fn of(self, t: Seq<TokenView>) -> bool {
        &&& self.grouped == has_group(t)
        &&& self.in_set == (keyword(t) == "set"@)
        &&& self.storing == stores(t)
    }
}

fn token_is_plain(t: &Vec<Token>, i: usize, depth: isize, shape: &Shape) -> (r: bool)
    requires
        i < t@.len(),
        depth == depth_before(t.deep_view(), i as int),
        shape.of(t.deep_view()),
    ensures
        r == plain_token(t.deep_view(), i as int),
{
    assert(t.deep_view()[i as int] == t@[i as int]@);
    match &t[i] {
        Token::Word(word) => {
            let word = word.as_str();
            is_whole_number(word) && !(token_names_filter(t, i) && is_harmful_filter(word)) && !(
            token_names_test(t, i) && same(word, "divisibleby"))
        },
        Token::Text => true,
        Token::Compare => true,
        Token::Sign(c) => {
            let c = *c;
            if c == '+' {
                i == 0 || i == t.len() - 1 || sign_adds_literal(t, i)
            } else if c == '(' {
                bracket_opens_arguments(t, i) || bracket_opens_call(t, i) || bracket_opens_group(
                    t,
                    i,
                )
            } else if c == '[' {
                bracket_is_plain(t, i, shape.storing)
            } else if c == '=' {
                depth == 0
            } else if c == ',' {
                !shape.grouped && !(shape.in_set && depth <= 0)
            } else {
                c != '{' && c != '*' && c != '\\'
            }
        },
    }
}

fn token_links(t: &Token) -> (r: bool)
    ensures
        r == is_link(t@),
{
    match t {
        Token::Word(word) => {
            let word = word.as_str();
            same(word, "not") || same(word, "and") || same(word, "or") || same(word, "if") || same(
                word,
                "is",
            ) || same(word, "in")
        },
        Token::Text => false,
        Token::Compare => true,
        Token::Sign(_) => true,
    }
}

proof fn lemma_links_grow(t: Seq<TokenView>, a: int, b: int)
    requires
        a <= b,
    ensures
        links_before(t, a) <= links_before(t, b),
    decreases b - a,
{
    if a < b {
        lemma_links_grow(t, a, b - 1);
    }
}

proof fn lemma_depth_bounds(t: Seq<TokenView>, n: int)
    requires
        0 <= n <= t.len(),
    ensures
        -links_before(t, n) <= depth_before(t, n) <= links_before(t, n),
    decreases n,
{
    if n > 0 {
        lemma_depth_bounds(t, n - 1);
    }
}

fn tokens_are_plain(t: &Vec<Token>, statement: bool, word: &str) -> (r: bool)
    requires
        word@ == keyword(t.deep_view()),
    ensures
        r == plain_tokens(t.deep_view(), statement),
{
    let ghost all = t.deep_view();
    if statement && is_harmful_statement(word) {
        return false;
    }
    let in_set = same(word, "set");
    let storing = in_set || same(word, "with");
    let shape = Shape { grouped: tokens_have_group(t), in_set, storing };
    let mut depth: isize = 0;
    let mut links: usize = 0;
    let mut i: usize = 0;
    while i < t.len()
        invariant
            i <= t@.len(),
            all == t.deep_view(),
            shape.of(all),
            depth == depth_before(all, i as int),
            links == links_before(all, i as int),
            links <= MAX_LINKS,
            forall|k: int| 0 <= k < i ==> #[trigger] plain_token(all, k),
        decreases t@.len() - i,
    {
        if !token_is_plain(t, i, depth, &shape) {
            assert(!plain_token(all, i as int));
            return false;
        }
        assert(all[i as int] == t@[i as int]@);
        proof {
            lemma_depth_bounds(all, i as int);
        }
        if token_is_sign(&t[i], '(') {
            depth += 1;
        } else if token_is_sign(&t[i], ')') {
            depth -= 1;
        }
        if token_links(&t[i]) {
            if links == MAX_LINKS {
                proof {
                    lemma_links_grow(all, i + 1, all.len() as int);
                }
                return false;
            }
            links += 1;
        }
        i += 1;
    }
    true
}

// ---------------------------------------------------------------------------
// Testing bodies
// ---------------------------------------------------------------------------

fn find_close(s: &Vec<char>, from: usize) -> (r: usize)
    requires
        from <= s@.len(),
    ensures
        r == close_from(s@, from as int),
        from <= r <= s@.len(),
{
    let mut i: usize = from;
    while i < s.len() && s[i] != '}'
        invariant
            from <= i <= s@.len(),
            close_from(s@, from as int) == close_from(s@, i as int),
        decreases s@.len() - i,
    {
        i += 1;
    }
    i
}

fn part(s: &Vec<char>, from: usize, to: usize) -> (r: Vec<char>)
    requires
        from <= to <= s@.len(),
    ensures
        r@ == s@.subrange(from as int, to as int),
{
    let mut r: Vec<char> = Vec::new();
    let mut i: usize = from;
    while i < to
        invariant
            from <= i <= to <= s@.len(),
            r@ == s@.subrange(from as int, i as int),
        decreases to - i,
    {
        r.push(s[i]);
        i += 1;
    }
    r
}

fn read_inside(s: &Vec<char>, i: usize) -> (r: Option<Vec<char>>)
    requires
        opens_at(s@, i as int),
    ensures
        match r {
            Some(inside) => inside_of(s@, i as int) == Some(inside@),
            None => inside_of(s@, i as int) is None,
        },
{
    let n: usize = s.len();
    let end = find_close(s, i + 2);
    if end >= n {
        return None;
    }
    if s[i + 1] == '{' {
        if end + 1 < n && s[end + 1] == '}' {
            Some(part(s, i + 2, end))
        } else {
            None
        }
    } else if i + 2 < end && s[end - 1] == '%' {
        Some(part(s, i + 2, end - 1))
    } else {
        None
    }
}

/// The word that the tag at a position opens with, if it is a statement.
/// Nothing for a tag that is not plain.
fn read_tag(s: &Vec<char>, i: usize) -> (r: Option<String>)
    requires
        opens_at(s@, i as int),
    ensures
        match r {
            Some(word) => plain_tag(s@, i as int) && word@ == statement_at(s@, i as int),
            None => !plain_tag(s@, i as int),
        },
{
    let n: usize = s.len();
    assert(i + 1 < n);
    let statement = s[i + 1] == '%';
    match read_inside(s, i) {
        None => None,
        Some(inside) => match read_tokens(&inside) {
            None => None,
            Some(tokens) => {
                let word = read_keyword(&tokens);
                if tokens_are_plain(&tokens, statement, word.as_str()) {
                    if statement {
                        Some(word)
                    } else {
                        Some(String::new())
                    }
                } else {
                    None
                }
            },
        },
    }
}

/// The words of the statements of a body by position, with an empty one where
/// none opens, and whether a tag may be passed over. Nothing if a line is too
/// long or a tag is not plain.
fn read_statements(s: &Vec<char>) -> (r: Option<(Vec<String>, bool)>)
    requires
        s@.len() <= MAX_BODY,
    ensures
        match r {
            Some((words, over)) => {
                &&& forall|n: int| 0 <= n <= s@.len() ==> #[trigger] column(s@, n) <= MAX_LINE
                &&& forall|i: int| #[trigger] opens_at(s@, i) ==> plain_tag(s@, i)
                &&& words@.len() == s@.len()
                &&& forall|i: int|
                    0 <= i < s@.len() ==> (#[trigger] words@[i])@ == statement_at(s@, i)
                &&& over == passes_over(s@)
            },
            None => {
                ||| exists|n: int| 0 <= n <= s@.len() && #[trigger] column(s@, n) > MAX_LINE
                ||| exists|i: int| #[trigger] opens_at(s@, i) && !plain_tag(s@, i)
            },
        },
{
    let n: usize = s.len();
    let mut words: Vec<String> = Vec::new();
    let mut over = false;
    let mut at: usize = 0;
    let mut i: usize = 0;
    while i < n
        invariant
            n == s@.len(),
            i <= n,
            at == column(s@, i as int),
            at <= MAX_LINE,
            forall|k: int| 0 <= k <= i ==> #[trigger] column(s@, k) <= MAX_LINE,
            forall|k: int| #[trigger] opens_at(s@, k) && k < i ==> plain_tag(s@, k),
            words@.len() == i,
            forall|k: int| 0 <= k < i ==> (#[trigger] words@[k])@ == statement_at(s@, k),
            over == exists|k: int| 0 <= k < i && #[trigger] skips_at(s@, k),
        decreases n - i,
    {
        let word = if s[i] == '{' && i + 1 < n && (s[i + 1] == '{' || s[i + 1] == '%') {
            match read_tag(s, i) {
                None => {
                    assert(opens_at(s@, i as int));
                    return None;
                },
                Some(word) => word,
            }
        } else {
            assert(statement_at(s@, i as int) =~= Seq::empty());
            String::new()
        };
        let comment = s[i] == '{' && i + 1 < n && s[i + 1] == '#';
        if comment || same(word.as_str(), "raw") {
            over = true;
            assert(skips_at(s@, i as int));
        } else {
            assert(!skips_at(s@, i as int));
        }
        words.push(word);
        if s[i] == '\n' {
            at = 0;
        } else {
            if at == MAX_LINE {
                assert(column(s@, i + 1) > MAX_LINE);
                return None;
            }
            at += 1;
        }
        i += 1;
    }
    Some((words, over))
}

/// Whether a body can be rendered without harm.
pub fn is_tame_body(body: &str) -> (r: bool)
    ensures
        r == tame(body@),
{
    let s = chars_of(body);
    let n: usize = s.len();
    if n > MAX_BODY {
        return false;
    }
    let (words, over) = match read_statements(&s) {
        None => {
            return false;
        },
        Some(read) => read,
    };
    let mut depth: usize = 0;
    let mut elifs: usize = 0;
    let mut i: usize = 0;
    while i < n
        invariant
            n == s@.len(),
            i <= n,
            s@ == body@,
            words@.len() == n,
            forall|k: int| 0 <= k < n ==> (#[trigger] words@[k])@ == statement_at(s@, k),
            over == passes_over(s@),
            branches(s@, i as int) == (depth as nat, elifs as nat),
            depth <= i,
            elifs <= MAX_ELIFS,
            forall|k: int| 0 <= k <= i ==> (#[trigger] branches(s@, k)).1 <= MAX_ELIFS,
        decreases n - i,
    {
        let word = words[i].as_str();
        if same(word, "if") {
            depth += 1;
        } else if same(word, "elif") {
            elifs += 1;
        } else if same(word, "endif") && depth > 0 {
            depth -= 1;
            if depth == 0 && !over {
                elifs = 0;
            }
        }
        i += 1;
        assert(branches(s@, i as int) == (depth as nat, elifs as nat));
        if elifs > MAX_ELIFS {
            return false;
        }
    }
    true
}

} // verus!
