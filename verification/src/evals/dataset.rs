//! Versioned golden datasets: files of one JSON case per line, named
//! `<action>.<version>.jsonl`. Blank lines and lines beginning with `#` are
//! ignored.

use vstd::prelude::*;
use vstd::string::*;

use crate::failure::Failure;
use crate::text::{
    before_suffix, chars_of, decimal, lines, lines_of, numeral, rsplit_once, same, split_last,
    strip_suffix, trim, trimmed, views,
};

verus! {

/// A versioned collection of evaluation cases for a single action.
#[derive(Debug)]
pub struct Dataset<C> {
    /// The action these cases exercise.
    pub action: String,
    /// The dataset version.
    pub version: String,
    pub cases: Vec<C>,
}

/// Whether a line, without white space around it, holds a case.
pub open spec fn holds_case(line: Seq<char>) -> bool {
    line.len() > 0 && line[0] != '#'
}

/// The lines that hold a case, without white space around them, each with its
/// number counted from one.
pub open spec fn case_lines(lines: Seq<Seq<char>>) -> Seq<(nat, Seq<char>)>
    decreases lines.len(),
{
    if lines.len() == 0 {
        Seq::empty()
    } else {
        let before = case_lines(lines.drop_last());
        let line = trimmed(lines.last());
        if holds_case(line) {
            before.push((lines.len(), line))
        } else {
            before
        }
    }
}

/// Whether `parse` may give `case` for a line.
pub open spec fn parses_to<C, F: Fn(String) -> Option<C>>(
    parse: F,
    line: Seq<char>,
    case: Option<C>,
) -> bool {
    exists|text: String| text@ == line && #[trigger] call_ensures(parse, (text,), case)
}

/// Whether `parse` may give a case for a line.
pub open spec fn gives_case<C, F: Fn(String) -> Option<C>>(parse: F, line: Seq<char>) -> bool {
    exists|case: C| parses_to(parse, line, Some(case))
}

/// Whether reading the lines with `parse` stops at line `i`: it gives no case,
/// and every line before it gives one.
pub open spec fn fails_at<C, F: Fn(String) -> Option<C>>(
    parse: F,
    held: Seq<(nat, Seq<char>)>,
    i: int,
) -> bool {
    &&& 0 <= i < held.len()
    &&& parses_to(parse, held[i].1, None)
    &&& forall|j: int| 0 <= j < i ==> gives_case(parse, (#[trigger] held[j]).1)
}

impl<C> Dataset<C> {
    /// Reads the cases of a dataset with `parse`, which gives the case of a
    /// line. It fails at the first line that gives none.
    pub fn from_jsonl<F: Fn(String) -> Option<C>>(
        action: &str,
        version: &str,
        contents: &str,
        parse: F,
    ) -> (r: Result<Self, Failure>)
        requires
            forall|text: String| #[trigger] call_requires(parse, (text,)),
        ensures
            ({
                let held = case_lines(lines_of(contents@));
                match r {
                    Ok(dataset) => {
                        &&& dataset.action@ == action@
                        &&& dataset.version@ == version@
                        &&& dataset.cases@.len() == held.len()
                        &&& forall|i: int|
                            0 <= i < held.len() ==> parses_to(
                                parse,
                                (#[trigger] held[i]).1,
                                Some(dataset.cases@[i]),
                            )
                    },
                    Err(failure) => exists|i: int|
                        #![trigger held[i]]
                        fails_at(parse, held, i) && failure@ == "failed to parse case on line "@
                            + numeral(held[i].0),
                }
            }),
    {
        let all = lines(contents);
        let ghost texts = views(all@);
        let ghost held = case_lines(texts);
        let mut cases: Vec<C> = Vec::new();
        let mut i: usize = 0;
        assert(case_lines(texts.take(0)).len() == 0);
        while i < all.len()
            invariant
                i <= all@.len(),
                texts == views(all@),
                texts == lines_of(contents@),
                held == case_lines(texts),
                forall|text: String| #[trigger] call_requires(parse, (text,)),
                cases@.len() == case_lines(texts.take(i as int)).len(),
                forall|k: int|
                    0 <= k < cases@.len() ==> parses_to(
                        parse,
                        (#[trigger] case_lines(texts.take(i as int))[k]).1,
                        Some(cases@[k]),
                    ),
            decreases all@.len() - i,
        {
            let ghost before = case_lines(texts.take(i as int));
            proof {
                let next = texts.take(i + 1);
                assert(next.drop_last() =~= texts.take(i as int));
                assert(next.last() == all@[i as int]@);
                assert(next.len() == i + 1);
                lemma_case_lines_prefix(texts, i as int);
                lemma_case_lines_prefix(texts, i + 1);
            }
            let line = trim(all[i].as_str());
            let chars = chars_of(line.as_str());
            if chars.len() > 0 && chars[0] != '#' {
                let ghost text = line@;
                match parse(line) {
                    Some(case) => {
                        let ghost had = cases@;
                        cases.push(case);
                        proof {
                            let now = case_lines(texts.take(i + 1));
                            assert(now == before.push(((i + 1) as nat, text)));
                            assert(parses_to(parse, text, Some(case)));
                            assert forall|k: int| 0 <= k < cases@.len() implies parses_to(
                                parse,
                                (#[trigger] now[k]).1,
                                Some(cases@[k]),
                            ) by {
                                if k < had.len() {
                                    assert(now[k] == before[k]);
                                    assert(cases@[k] == had[k]);
                                }
                            }
                        }
                    },
                    None => {
                        let number: usize = i + 1;
                        let mut message = "failed to parse case on line ".to_owned();
                        message.append(decimal(number as u64).as_str());
                        proof {
                            let now = case_lines(texts.take(i + 1));
                            let k = before.len() as int;
                            assert(now == before.push(((i + 1) as nat, text)));
                            assert(held[k] == now[k]);
                            assert(parses_to(parse, held[k].1, None));
                            assert forall|j: int| 0 <= j < k implies gives_case(
                                parse,
                                (#[trigger] held[j]).1,
                            ) by {
                                assert(held[j] == before[j]);
                                assert(parses_to(parse, before[j].1, Some(cases@[j])));
                            }
                            assert(fails_at(parse, held, k));
                        }
                        return Err(Failure { message });
                    },
                }
            }
            i += 1;
        }
        assert(texts.take(i as int) =~= texts);
        Ok(Dataset { action: action.to_owned(), version: version.to_owned(), cases })
    }

    pub fn len(&self) -> (r: usize)
        ensures
            r == self.cases@.len(),
    {
        self.cases.len()
    }

    pub fn is_empty(&self) -> (r: bool)
        ensures
            r == (self.cases@.len() == 0),
    {
        self.cases.len() == 0
    }
}

proof fn lemma_case_lines_prefix(lines: Seq<Seq<char>>, n: int)
    requires
        0 <= n <= lines.len(),
    ensures
        case_lines(lines.take(n)).is_prefix_of(case_lines(lines)),
    decreases lines.len() - n,
{
    if n < lines.len() {
        lemma_case_lines_prefix(lines, n + 1);
        let next = lines.take(n + 1);
        assert(next.drop_last() =~= lines.take(n));
        let a = case_lines(lines.take(n));
        let b = case_lines(next);
        let c = case_lines(lines);
        assert(a.is_prefix_of(b));
        assert(a =~= c.subrange(0, a.len() as int)) by {
            assert forall|i: int| 0 <= i < a.len() implies a[i] == c[i] by {
                assert(a[i] == b.subrange(0, a.len() as int)[i]);
                assert(b[i] == c.subrange(0, b.len() as int)[i]);
            }
        }
    } else {
        assert(lines.take(n) =~= lines);
        assert(case_lines(lines) =~= case_lines(lines).subrange(
            0,
            case_lines(lines).len() as int,
        ));
    }
}

/// The parts of a path between slashes, without empty ones and `.`.
pub open spec fn path_parts(path: Seq<char>) -> Seq<Seq<char>>
    decreases path.len(),
{
    match split_last(path, '/') {
        Some((head, tail)) => if head.len() < path.len() {
            if tail.len() == 0 || tail == "."@ {
                path_parts(head)
            } else {
                path_parts(head).push(tail)
            }
        } else {
            Seq::empty()
        },
        None => if path.len() == 0 || path == "."@ {
            Seq::empty()
        } else {
            seq![path]
        },
    }
}

/// The file name of a path: its last part.
pub open spec fn file_name_of(path: Seq<char>) -> Option<Seq<char>> {
    let parts = path_parts(path);
    if parts.len() == 0 || parts.last() == ".."@ {
        None
    } else {
        Some(parts.last())
    }
}

/// The last part of a path, if it is a name.
pub fn file_name(path: &str) -> (r: Option<String>)
    ensures
        r.deep_view() == file_name_of(path@),
    decreases path@.len(),
{
    match rsplit_once(path, '/') {
        Some((head, tail)) => {
            proof {
                path@.index_of_last_ensures('/');
            }
            if tail.as_str().is_empty() || same(tail.as_str(), ".") {
                file_name(head.as_str())
            } else if same(tail.as_str(), "..") {
                None
            } else {
                Some(tail)
            }
        },
        None => {
            if path.is_empty() || same(path, ".") || same(path, "..") {
                None
            } else {
                Some(path.to_owned())
            }
        },
    }
}

/// The action and version in a dataset's file name.
pub open spec fn stem_of(path: Seq<char>) -> Option<(Seq<char>, Seq<char>)> {
    match file_name_of(path) {
        Some(name) => match before_suffix(name, ".jsonl"@) {
            Some(stem) => match split_last(stem, '.') {
                Some((action, version)) => if action.len() == 0 || version.len() == 0 {
                    None
                } else {
                    Some((action, version))
                },
                None => None,
            },
            None => None,
        },
        None => None,
    }
}

/// Splits `<action>.<version>.jsonl` into its action and version parts.
pub fn parse_stem(path: &str) -> (r: Option<(String, String)>)
    ensures
        r.deep_view() == stem_of(path@),
{
    let name = match file_name(path) {
        Some(name) => name,
        None => {
            return None;
        },
    };
    let stem = match strip_suffix(name.as_str(), ".jsonl") {
        Some(stem) => stem,
        None => {
            return None;
        },
    };
    match rsplit_once(stem.as_str(), '.') {
        Some((action, version)) => {
            if action.as_str().is_empty() || version.as_str().is_empty() {
                None
            } else {
                Some((action, version))
            }
        },
        None => None,
    }
}

} // verus!
