//! What becomes of a template and of a document.

use vstd::prelude::*;

use crate::json::{compact_json, compact_of, document, is_document, pretty_or_compact};
use crate::prompts::{
    body_of, header_name, is_header, rendered, rendered_body, table_of, PromptTemplate,
};
use crate::template_tags::{
    branches, close_from, column, opens_at, plain_tag, statement_at, tame, MAX_ELIFS, MAX_LINE,
};
use crate::text::{is_white, trimmed, trimmed_start, without_leading};
use crate::text_laws::{
    law_leading_marks_are_taken, law_line_feed_closes_a_line, law_trimming_twice_is_trimming_once,
};

verus! {

/// The whole of a template without a header is rendered.
pub proof fn law_template_without_header_is_rendered_whole(template: Seq<char>)
    ensures
        !template.contains('\n') ==> body_of(template) == template,
        forall|first: Seq<char>, rest: Seq<char>|
            template == #[trigger] (first.push('\n') + rest) && !first.contains('\n') && !is_header(
                first,
            ) ==> body_of(template) == template,
{
    template.index_of_first_ensures('\n');
    assert forall|first: Seq<char>, rest: Seq<char>|
        template == #[trigger] (first.push('\n') + rest) && !first.contains('\n') && !is_header(
            first,
        ) implies body_of(template) == template by {
        let k = first.len() as int;
        assert(template[k] == '\n');
        let i = template.index_of_first('\n')->0;
        assert(i == k) by {
            if i < k {
                assert(first[i] == '\n');
            }
        }
        assert(template.take(k) =~= first);
    }
}

/// A line is a header exactly if the first of its characters that is no white
/// space is `#`.
pub proof fn law_header_opens_with_its_mark(blank: Seq<char>, rest: Seq<char>)
    requires
        forall|i: int| 0 <= i < blank.len() ==> is_white(#[trigger] blank[i]),
    ensures
        is_header(blank + rest) == is_header(rest),
        rest.len() > 0 && rest[0] == '#' ==> is_header(rest),
        rest.len() > 0 && rest[0] != '#' && !is_white(rest[0]) ==> !is_header(rest),
        rest.len() == 0 ==> !is_header(rest),
    decreases blank.len(),
{
    let white = |c: char| is_white(c);
    if blank.len() > 0 {
        let fewer = blank.drop_first();
        assert forall|i: int| 0 <= i < fewer.len() implies is_white(#[trigger] fewer[i]) by {
            assert(fewer[i] == blank[i + 1]);
        }
        law_header_opens_with_its_mark(fewer, rest);
        assert((blank + rest).drop_first() =~= fewer + rest);
        assert(is_white(blank[0]));
        assert(white((blank + rest)[0]));
        assert(trimmed_start(blank + rest) == trimmed_start(fewer + rest));
    } else {
        assert(blank + rest =~= rest);
    }
    if rest.len() > 0 && rest[0] == '#' {
        assert(!white(rest[0]));
        assert(trimmed_start(rest) == rest);
    }
    if rest.len() > 0 && !is_white(rest[0]) {
        assert(!white(rest[0]));
        assert(trimmed_start(rest) == rest);
    }
}

/// A rendered text is given without the white space around it, and a failure
/// names the template and tells the error.
pub proof fn law_rendering_is_trimmed_or_explained(
    name: Seq<char>,
    template: Seq<char>,
    vars: Seq<(Seq<char>, Seq<char>)>,
)
    ensures
        match rendered_body(body_of(template), vars) {
            Ok(text) => rendered(name, template, vars) == Ok::<Seq<char>, Seq<char>>(trimmed(text)),
            Err(error) => rendered(name, template, vars) == Err::<Seq<char>, Seq<char>>(
                "failed to render prompt '"@ + name + "': "@ + error,
            ),
        },
{
}

/// The header names its template.
pub proof fn law_header_names_its_template(name: Seq<char>, rest: Seq<char>)
    requires
        name.len() > 0,
        !name.contains('\n'),
        name[0] != '#',
        !is_white(name[0]),
        !is_white(name.last()),
    ensures
        header_name(seq!['#'] + name.push('\n') + rest) == name,
{
    let line = seq!['#'] + name;
    assert(!line.contains('\n')) by {
        if line.contains('\n') {
            let j = choose|j: int| 0 <= j < line.len() && line[j] == '\n';
            assert(j > 0);
            assert(name[j - 1] == '\n');
        }
    }
    assert(line.last() != '\r');
    law_line_feed_closes_a_line(line, rest);
    assert(seq!['#'] + name.push('\n') + rest =~= line.push('\n') + rest);
    law_leading_marks_are_taken(line, '#');
    let k = choose|k: int|
        #![trigger line.skip(k)]
        {
            &&& 0 <= k <= line.len()
            &&& without_leading(line, '#') == line.skip(k)
            &&& forall|i: int| 0 <= i < k ==> #[trigger] line[i] == '#'
            &&& k < line.len() ==> line[k] != '#'
        };
    assert(k == 1) by {
        assert(line[0] == '#' && line[1] == name[0]);
        if k > 1 {
            assert(line[1] == '#');
        }
    }
    assert(line.skip(1) =~= name);
    law_trimming_twice_is_trimming_once(name);
}

/// Of several templates with one name the last counts, and the others stay as
/// they were.
pub proof fn law_last_template_of_a_name_counts(
    entries: Seq<PromptTemplate>,
    last: PromptTemplate,
    other: Seq<char>,
)
    ensures
        table_of(Seq::empty()) == Map::<Seq<char>, Seq<char>>::empty(),
        table_of(entries.push(last)).contains_key(last.name@),
        table_of(entries.push(last))[last.name@] == last.template@,
        other != last.name@ ==> {
            &&& table_of(entries.push(last)).contains_key(other) == table_of(entries).contains_key(
                other,
            )
            &&& table_of(entries.push(last))[other] == table_of(entries)[other]
        },
{
    assert(entries.push(last).drop_last() =~= entries);
}

/// A text that is a document is kept as it is, and one that is none counts as
/// `null`.
pub proof fn law_document_is_kept_as_it_is(text: Seq<char>)
    ensures
        is_document(text) ==> document(text) == text && compact_json(text) == Some(
            compact_of(text),
        ),
        !is_document(text) ==> document(text) == "null"@ && compact_of(text) == "null"@,
{
}

/// A document is shown indented where it can be, and compact where not.
pub proof fn law_document_is_shown_indented(indented: Seq<char>, text: Seq<char>)
    ensures
        pretty_or_compact(Some(indented), text) == indented,
        is_document(text) ==> Some(pretty_or_compact(None, text)) == compact_json(text),
{
}

proof fn lemma_no_statement(body: Seq<char>, n: int)
    requires
        0 <= n <= body.len(),
        !body.contains('{'),
    ensures
        column(body, n) <= n,
        branches(body, n).1 == 0,
    decreases n,
{
    if n > 0 {
        lemma_no_statement(body, n - 1);
        assert(body[n - 1] != '{');
        assert(statement_at(body, n - 1).len() == 0);
        reveal_strlit("if");
        reveal_strlit("elif");
        assert("if"@.len() == 2 && "elif"@.len() == 4);
    }
}

/// A text without tags can be rendered, where it is not so long that a line of
/// it could be too long; a tag that is never closed cannot be.
pub proof fn law_text_without_tags_can_be_rendered(body: Seq<char>)
    ensures
        body.len() <= 65000 && !body.contains('{') ==> tame(body),
        (exists|i: int| #[trigger] opens_at(body, i) && close_from(body, i + 2) >= body.len())
            ==> !tame(body),
{
    if body.len() <= 65000 && !body.contains('{') {
        assert forall|n: int| 0 <= n <= body.len() implies #[trigger] column(body, n)
            <= MAX_LINE by {
            lemma_no_statement(body, n);
        }
        assert forall|n: int| 0 <= n <= body.len() implies (#[trigger] branches(body, n)).1
            <= MAX_ELIFS by {
            lemma_no_statement(body, n);
        }
        assert forall|i: int| #[trigger] opens_at(body, i) implies plain_tag(body, i) by {
            assert(body[i] == '{');
        }
    }
    if exists|i: int| #[trigger] opens_at(body, i) && close_from(body, i + 2) >= body.len() {
        let i = choose|i: int| #[trigger]
            opens_at(body, i) && close_from(body, i + 2) >= body.len();
        assert(!plain_tag(body, i));
    }
}

} // verus!
