//! Prompt templates: their headers, their registries and their rendering.

use std::collections::BTreeMap;

use vstd::prelude::*;
use vstd::string::*;

use crate::failure::Failure;
use crate::template_tags::{is_tame_body, tame};
use crate::text::{
    chars_of, lines, lines_of, same, split_first, split_once, trim, trim_start, trim_start_matches,
    trimmed, trimmed_start, views, without_leading,
};

verus! {

/// A named template. The first line of the text is a `#name` header.
#[derive(Debug, Clone, Copy)]
pub struct PromptTemplate {
    pub name: &'static str,
    pub template: &'static str,
}

/// Looks up templates by name.
pub trait PromptRegistry {
    /// The text of each template, by name.
    spec fn templates(&self) -> Map<Seq<char>, Seq<char>>;

    fn get(&self, name: &str) -> (r: Option<&PromptTemplate>)
        ensures
            match r {
                Some(t) => self.templates().contains_key(name@) && t.name@ == name@ && t.template@
                    == self.templates()[name@],
                None => !self.templates().contains_key(name@),
            },
    ;

    /// Every name, once.
    fn names(&self) -> (r: Vec<&str>)
        ensures
            forall|i: int|
                0 <= i < r@.len() ==> self.templates().contains_key((#[trigger] r@[i])@),
            forall|name: Seq<char>|
                self.templates().contains_key(name) ==> exists|i: int|
                    0 <= i < r@.len() && (#[trigger] r@[i])@ == name,
            forall|i: int, j: int|
                0 <= i < j < r@.len() ==> (#[trigger] r@[i])@ != (#[trigger] r@[j])@,
    ;
}

/// Whether a line opens with `#`, after white space.
pub open spec fn is_header(line: Seq<char>) -> bool {
    let line = trimmed_start(line);
    line.len() > 0 && line[0] == '#'
}

/// A template's text without its header line.
pub open spec fn body_of(template: Seq<char>) -> Seq<char> {
    match split_first(template, '\n') {
        Some((first, rest)) => if is_header(first) {
            rest
        } else {
            template
        },
        None => template,
    }
}

/// Variables as names and values.
pub open spec fn vars_view(vars: Seq<(&str, &str)>) -> Seq<(Seq<char>, Seq<char>)> {
    vars.map_values(|v: (&str, &str)| (v.0@, v.1@))
}

/// What MiniJinja renders from a template's body and variables: the text, or
/// the text of its error. Of several values for one name the last counts.
pub uninterp spec fn rendered_body(
    body: Seq<char>,
    vars: Seq<(Seq<char>, Seq<char>)>,
) -> Result<Seq<char>, Seq<char>>;

/// `minijinja::Environment::render_str` in a fresh environment, with the
/// variables as a map. What it renders is named, and so is the text of its
/// error. On a body that is not tame the engine may panic.
#[verifier::external_body]
fn render_body(body: &str, vars: &[(&str, &str)]) -> (r: Result<String, String>)
    requires
        tame(body@),
    ensures
        match r {
            Ok(text) => rendered_body(body@, vars_view(vars@)) == Ok::<Seq<char>, Seq<char>>(text@),
            Err(error) => rendered_body(body@, vars_view(vars@)) == Err::<Seq<char>, Seq<char>>(
                error@,
            ),
        },
{
    let context: BTreeMap<&str, &str> = vars.iter().copied().collect();
    minijinja::Environment::new().render_str(body, context).map_err(|e| e.to_string())
}

/// Strips the `#name` header line, leaving the body.
pub fn strip_header(template: &str) -> (r: String)
    ensures
        r@ == body_of(template@),
{
    match split_once(template, '\n') {
        Some((first, rest)) => {
            let first = trim_start(first.as_str());
            let line = chars_of(first.as_str());
            if line.len() > 0 && line[0] == '#' {
                rest
            } else {
                template.to_owned()
            }
        },
        None => template.to_owned(),
    }
}

/// What a rendering comes to: the text without white space around it, or a
/// failure that names the template.
pub open spec fn render_outcome(name: Seq<char>, rendered: Result<Seq<char>, Seq<char>>) -> Result<
    Seq<char>,
    Seq<char>,
> {
    match rendered {
        Ok(text) => Ok(trimmed(text)),
        Err(error) => Err("failed to render prompt '"@ + name + "': "@ + error),
    }
}

pub open spec fn outcome_view(r: Result<String, Failure>) -> Result<Seq<char>, Seq<char>> {
    match r {
        Ok(text) => Ok(text@),
        Err(failure) => Err(failure@),
    }
}

/// Finishes a rendering of the template `name`.
pub fn finish_render(name: &str, rendered: Result<String, String>) -> (r: Result<String, Failure>)
    ensures
        outcome_view(r) == render_outcome(
            name@,
            match rendered {
                Ok(text) => Ok(text@),
                Err(error) => Err(error@),
            },
        ),
{
    match rendered {
        Ok(text) => Ok(trim(text.as_str())),
        Err(error) => {
            let mut message = "failed to render prompt '".to_owned();
            message.append(name);
            message.append("': ");
            message.append(error.as_str());
            Err(Failure { message })
        },
    }
}

/// What rendering a template gives.
pub open spec fn rendered(
    name: Seq<char>,
    template: Seq<char>,
    vars: Seq<(Seq<char>, Seq<char>)>,
) -> Result<Seq<char>, Seq<char>> {
    render_outcome(name, rendered_body(body_of(template), vars))
}

/// Whether the template under a name, if there is one, can be rendered without
/// harm.
pub open spec fn tame_under(templates: Map<Seq<char>, Seq<char>>, name: Seq<char>) -> bool {
    templates.contains_key(name) ==> tame(body_of(templates[name]))
}

/// Whether every template of a registry can be rendered without harm.
pub open spec fn all_tame(templates: Map<Seq<char>, Seq<char>>) -> bool {
    forall|name: Seq<char>| #[trigger] tame_under(templates, name)
}

/// Whether a template can be rendered without harm.
pub fn is_tame(template: &str) -> (r: bool)
    ensures
        r == tame(body_of(template@)),
{
    let body = strip_header(template);
    is_tame_body(body.as_str())
}

/// Renders a template's body with the given variables. A variable that is not
/// given is undefined: it renders as nothing and counts as false.
pub fn render(template: &PromptTemplate, vars: &[(&str, &str)]) -> (r: Result<String, Failure>)
    requires
        tame(body_of(template.template@)),
    ensures
        outcome_view(r) == rendered(template.name@, template.template@, vars_view(vars@)),
{
    let body = strip_header(template.template);
    finish_render(template.name, render_body(body.as_str(), vars))
}

/// A header line never reaches the output: a template whose first line is a
/// header renders like the rest of its text under a header of any other name.
pub proof fn law_header_is_not_rendered(
    name: Seq<char>,
    first: Seq<char>,
    other: Seq<char>,
    rest: Seq<char>,
    vars: Seq<(Seq<char>, Seq<char>)>,
)
    requires
        is_header(first),
        is_header(other),
        !first.contains('\n'),
        !other.contains('\n'),
    ensures
        rendered(name, first.push('\n') + rest, vars) == rendered(
            name,
            other.push('\n') + rest,
            vars,
        ),
        body_of(first.push('\n') + rest) == rest,
{
    lemma_body_after_header(first, rest);
    lemma_body_after_header(other, rest);
}

proof fn lemma_body_after_header(first: Seq<char>, rest: Seq<char>)
    requires
        is_header(first),
        !first.contains('\n'),
    ensures
        body_of(first.push('\n') + rest) == rest,
{
    let whole = first.push('\n') + rest;
    let k = first.len() as int;
    assert(whole[k] == '\n');
    assert forall|i: int| 0 <= i < k implies whole[i] != '\n' by {
        assert(whole[i] == first[i]);
        assert(first.contains(first[i]));
    }
    whole.index_of_first_ensures('\n');
    assert(whole.contains('\n'));
    assert(whole.index_of_first('\n') == Some(k));
    assert(whole.take(k) =~= first);
    assert(whole.skip(k + 1) =~= rest);
}

/// The first of some lines, or nothing.
pub open spec fn first_line(lines: Seq<Seq<char>>) -> Seq<char> {
    if lines.len() > 0 {
        lines[0]
    } else {
        Seq::empty()
    }
}

/// The name in a template's header: its first line without leading `#` and
/// without white space around it.
pub open spec fn header_name(template: Seq<char>) -> Seq<char> {
    trimmed(without_leading(first_line(lines_of(template)), '#'))
}

/// The name in a template's header.
pub fn name_in_header(template: &str) -> (r: String)
    ensures
        r@ == header_name(template@),
{
    let all = lines(template);
    let first = if all.len() > 0 {
        assert(views(all@)[0] == all@[0]@);
        all[0].clone()
    } else {
        String::new()
    };
    let name = trim_start_matches(first.as_str(), '#');
    trim(name.as_str())
}

/// `String::leak`: the same text, kept for good.
#[verifier::external_body]
pub(crate) fn leak(text: String) -> (r: &'static str)
    ensures
        r@ == text@,
{
    text.leak()
}

/// The text of each template by name; of several with one name the last
/// counts.
pub open spec fn table_of(entries: Seq<PromptTemplate>) -> Map<Seq<char>, Seq<char>>
    decreases entries.len(),
{
    if entries.len() == 0 {
        Map::empty()
    } else {
        table_of(entries.drop_last()).insert(entries.last().name@, entries.last().template@)
    }
}

proof fn lemma_table(entries: Seq<PromptTemplate>, name: Seq<char>)
    ensures
        table_of(entries).contains_key(name) <==> exists|i: int|
            0 <= i < entries.len() && (#[trigger] entries[i]).name@ == name,
    decreases entries.len(),
{
    if entries.len() > 0 {
        let front = entries.drop_last();
        lemma_table(front, name);
        if table_of(entries).contains_key(name) {
            if entries.last().name@ == name {
                assert(entries[entries.len() - 1].name@ == name);
            } else {
                let i = choose|i: int| 0 <= i < front.len() && (#[trigger] front[i]).name@ == name;
                assert(entries[i].name@ == name);
            }
        }
        if exists|i: int| 0 <= i < entries.len() && (#[trigger] entries[i]).name@ == name {
            let i = choose|i: int| 0 <= i < entries.len() && (#[trigger] entries[i]).name@ == name;
            if i < front.len() {
                assert(front[i].name@ == name);
            }
        }
    }
}

proof fn lemma_table_last(entries: Seq<PromptTemplate>, name: Seq<char>, k: int)
    requires
        0 <= k < entries.len(),
        entries[k].name@ == name,
        forall|i: int| k < i < entries.len() ==> (#[trigger] entries[i]).name@ != name,
    ensures
        table_of(entries).contains_key(name),
        table_of(entries)[name] == entries[k].template@,
    decreases entries.len(),
{
    if k < entries.len() - 1 {
        let front = entries.drop_last();
        assert(entries[entries.len() - 1].name@ != name);
        lemma_table_last(front, name, k);
    }
}

/// Templates in a list.
#[derive(Debug)]
pub struct TemplateTable {
    entries: Vec<PromptTemplate>,
}

impl View for TemplateTable {
    type V = Map<Seq<char>, Seq<char>>;

    closed spec fn view(&self) -> Map<Seq<char>, Seq<char>> {
        table_of(self.entries@)
    }
}

impl TemplateTable {
    pub fn new() -> (r: Self)
        ensures
            r@ == Map::<Seq<char>, Seq<char>>::empty(),
    {
        TemplateTable { entries: Vec::new() }
    }

    /// Puts a template under its name, in place of an earlier one.
    pub fn insert(&mut self, template: PromptTemplate)
        ensures
            final(self)@ == old(self)@.insert(template.name@, template.template@),
    {
        self.entries.push(template);
        assert(self.entries@.drop_last() =~= old(self).entries@);
    }

    pub fn get(&self, name: &str) -> (r: Option<&PromptTemplate>)
        ensures
            match r {
                Some(t) => self@.contains_key(name@) && t.name@ == name@ && t.template@
                    == self@[name@],
                None => !self@.contains_key(name@),
            },
    {
        let mut i: usize = self.entries.len();
        while i > 0
            invariant
                i <= self.entries@.len(),
                forall|k: int|
                    i <= k < self.entries@.len() ==> (#[trigger] self.entries@[k]).name@ != name@,
            decreases i,
        {
            i -= 1;
            if same(self.entries[i].name, name) {
                proof {
                    lemma_table_last(self.entries@, name@, i as int);
                }
                return Some(&self.entries[i]);
            }
        }
        proof {
            lemma_table(self.entries@, name@);
        }
        None
    }

    /// Whether a later entry than the `i`-th has its name.
    fn replaced(&self, i: usize) -> (r: bool)
        requires
            i < self.entries@.len(),
        ensures
            r == exists|j: int|
                i < j < self.entries@.len() && (#[trigger] self.entries@[j]).name@
                    == self.entries@[i as int].name@,
    {
        let n: usize = self.entries.len();
        let mut j: usize = i + 1;
        while j < n
            invariant
                n == self.entries@.len(),
                i < j <= n,
                forall|k: int|
                    i < k < j ==> (#[trigger] self.entries@[k]).name@
                        != self.entries@[i as int].name@,
            decreases n - j,
        {
            if same(self.entries[j].name, self.entries[i].name) {
                return true;
            }
            j += 1;
        }
        false
    }

    /// Every name, once.
    pub fn names(&self) -> (r: Vec<&str>)
        ensures
            forall|i: int| 0 <= i < r@.len() ==> self@.contains_key((#[trigger] r@[i])@),
            forall|name: Seq<char>|
                self@.contains_key(name) ==> exists|i: int|
                    0 <= i < r@.len() && (#[trigger] r@[i])@ == name,
            forall|i: int, j: int|
                0 <= i < j < r@.len() ==> (#[trigger] r@[i])@ != (#[trigger] r@[j])@,
    {
        let mut r: Vec<&str> = Vec::new();
        let ghost mut from: Seq<int> = Seq::empty();
        let mut i: usize = 0;
        while i < self.entries.len()
            invariant
                i <= self.entries@.len(),
                from.len() == r@.len(),
                forall|k: int|
                    0 <= k < r@.len() ==> 0 <= #[trigger] from[k] < i && r@[k]@
                        == self.entries@[from[k]].name@,
                forall|k: int, l: int|
                    0 <= k < r@.len() && from[k] < l < self.entries@.len() ==> (
                    #[trigger] self.entries@[l]).name@ != (#[trigger] r@[k])@,
                forall|k: int, l: int| 0 <= k < l < r@.len() ==> #[trigger] from[k] < #[trigger] from[l],
                forall|k: int|
                    0 <= k < i ==> (exists|j: int|
                        0 <= j < r@.len() && (#[trigger] r@[j])@ == (
                        #[trigger] self.entries@[k]).name@) || (exists|l: int|
                        i <= l < self.entries@.len() && (#[trigger] self.entries@[l]).name@
                            == self.entries@[k].name@),
            decreases self.entries@.len() - i,
        {
            let ghost names = r@;
            let ghost sources = from;
            if !self.replaced(i) {
                r.push(self.entries[i].name);
                proof {
                    from = from.push(i as int);
                }
                assert(r@[names.len() as int]@ == self.entries@[i as int].name@);
            }
            proof {
                assert forall|k: int| 0 <= k < i + 1 implies (exists|j: int|
                    0 <= j < r@.len() && (#[trigger] r@[j])@ == (#[trigger] self.entries@[k]).name@)
                    || (exists|l: int|
                    i + 1 <= l < self.entries@.len() && (#[trigger] self.entries@[l]).name@
                        == self.entries@[k].name@) by {
                    if k < i {
                        if exists|j: int|
                            0 <= j < names.len() && (#[trigger] names[j])@
                                == self.entries@[k].name@ {
                            let j = choose|j: int|
                                0 <= j < names.len() && (#[trigger] names[j])@
                                    == self.entries@[k].name@;
                            assert(r@[j]@ == self.entries@[k].name@);
                        } else {
                            let l = choose|l: int|
                                i <= l < self.entries@.len() && (#[trigger] self.entries@[l]).name@
                                    == self.entries@[k].name@;
                            if l == i {
                                if r@.len() > names.len() {
                                    assert(r@[names.len() as int]@ == self.entries@[k].name@);
                                }
                            }
                        }
                    } else if r@.len() > names.len() {
                        assert(r@[names.len() as int]@ == self.entries@[k].name@);
                    }
                }
            }
            i += 1;
        }
        proof {
            assert forall|k: int| 0 <= k < r@.len() implies self@.contains_key(
                (#[trigger] r@[k])@,
            ) by {
                lemma_table(self.entries@, r@[k]@);
                assert(self.entries@[from[k]].name@ == r@[k]@);
            }
            assert forall|name: Seq<char>| self@.contains_key(name) implies exists|k: int|
                0 <= k < r@.len() && (#[trigger] r@[k])@ == name by {
                lemma_table(self.entries@, name);
                let k = choose|k: int|
                    0 <= k < self.entries@.len() && (#[trigger] self.entries@[k]).name@ == name;
                assert(exists|j: int| 0 <= j < r@.len() && (#[trigger] r@[j])@ == self.entries@[k].name@);
            }
            assert forall|k: int, l: int| 0 <= k < l < r@.len() implies (#[trigger] r@[k])@ != (
            #[trigger] r@[l])@ by {
                assert(from[k] < from[l]);
                assert(self.entries@[from[l]].name@ != r@[k]@);
            }
        }
        r
    }
}

} // verus!
