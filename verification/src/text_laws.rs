//! What the operations on text do, in terms of the characters they are given.

use vstd::prelude::*;

use crate::text::{
    after_prefix, before_suffix, digit, is_white, joined, lines_of, numeral, skip_back, skip_front,
    split_first, split_last, trimmed, trimmed_end, trimmed_start, without_cr, without_leading,
    without_trailing,
};

verus! {

proof fn lemma_skip_front(s: Seq<char>, p: spec_fn(char) -> bool) -> (k: int)
    ensures
        0 <= k <= s.len(),
        skip_front(s, p) == s.skip(k),
        forall|i: int| 0 <= i < k ==> p(#[trigger] s[i]),
        k < s.len() ==> !p(s[k]),
    decreases s.len(),
{
    if s.len() > 0 && p(s[0]) {
        let rest = s.drop_first();
        let k = lemma_skip_front(rest, p);
        assert(rest.skip(k) =~= s.skip(k + 1));
        assert forall|i: int| 0 <= i < k + 1 implies p(#[trigger] s[i]) by {
            if i > 0 {
                assert(rest[i - 1] == s[i]);
            }
        }
        k + 1
    } else {
        assert(s.skip(0) =~= s);
        0
    }
}

proof fn lemma_skip_back(s: Seq<char>, p: spec_fn(char) -> bool) -> (k: int)
    ensures
        0 <= k <= s.len(),
        skip_back(s, p) == s.take(k),
        forall|i: int| k <= i < s.len() ==> p(#[trigger] s[i]),
        k > 0 ==> !p(s[k - 1]),
    decreases s.len(),
{
    if s.len() > 0 && p(s.last()) {
        let rest = s.drop_last();
        let k = lemma_skip_back(rest, p);
        assert(rest.take(k) =~= s.take(k));
        assert forall|i: int| k <= i < s.len() implies p(#[trigger] s[i]) by {
            if i < rest.len() {
                assert(rest[i] == s[i]);
            }
        }
        k
    } else {
        assert(s.take(s.len() as int) =~= s);
        s.len() as int
    }
}

/// Trimming takes the white space at both ends and nothing else: what is left
/// stands in the text as it did, begins and ends with no white space, and all
/// that stood around it is white space.
pub proof fn law_trimming_takes_the_white_space_at_the_ends(s: Seq<char>)
    ensures
        exists|a: int, b: int|
            #![trigger s.subrange(a, b)]
            {
                &&& 0 <= a <= b <= s.len()
                &&& trimmed(s) == s.subrange(a, b)
                &&& forall|i: int| 0 <= i < a ==> is_white(#[trigger] s[i])
                &&& forall|i: int| b <= i < s.len() ==> is_white(#[trigger] s[i])
                &&& a < b ==> !is_white(s[a]) && !is_white(s[b - 1])
            },
{
    let white = |c: char| is_white(c);
    let a = lemma_skip_front(s, white);
    let rest = s.skip(a);
    let k = lemma_skip_back(rest, white);
    assert(trimmed(s) == rest.take(k));
    assert(rest.take(k) =~= s.subrange(a, a + k));
    assert forall|i: int| 0 <= i < a implies is_white(#[trigger] s[i]) by {
        assert(white(s[i]));
    }
    assert forall|i: int| a + k <= i < s.len() implies is_white(#[trigger] s[i]) by {
        assert(white(rest[i - a]));
    }
    if k > 0 {
        assert(!white(rest[k - 1]));
        assert(a < s.len());
        assert(!white(s[a]));
    }
}

/// Space, tabulator and the ends of lines are white space; what is printed of
/// ASCII is none.
pub proof fn law_white_space_prints_nothing(c: char)
    ensures
        c == ' ' || c == '\t' || c == '\n' || c == '\r' ==> is_white(c),
        '!' <= c <= '~' ==> !is_white(c),
{
}

/// A text that begins and ends with no white space is not changed by
/// trimming, and trimming again changes nothing.
pub proof fn law_trimming_twice_is_trimming_once(s: Seq<char>)
    ensures
        s.len() > 0 && !is_white(s[0]) && !is_white(s.last()) ==> trimmed(s) == s,
        trimmed(trimmed(s)) == trimmed(s),
{
    law_trimming_takes_the_white_space_at_the_ends(s);
    let t = trimmed(s);
    let white = |c: char| is_white(c);
    if s.len() > 0 && !is_white(s[0]) && !is_white(s.last()) {
        assert(!white(s[0]) && !white(s.last()));
        assert(trimmed_start(s) == s);
        assert(trimmed_end(s) == s);
    }
    if t.len() > 0 {
        assert(!white(t[0]) && !white(t.last()));
        assert(trimmed_start(t) == t);
        assert(trimmed_end(t) == t);
    } else {
        assert(trimmed_start(t) == t);
        assert(trimmed_end(t) == t);
    }
}

/// Taking a mark from the front takes every one of it that leads, and nothing
/// else.
pub proof fn law_leading_marks_are_taken(s: Seq<char>, mark: char)
    ensures
        exists|k: int|
            #![trigger s.skip(k)]
            {
                &&& 0 <= k <= s.len()
                &&& without_leading(s, mark) == s.skip(k)
                &&& forall|i: int| 0 <= i < k ==> #[trigger] s[i] == mark
                &&& k < s.len() ==> s[k] != mark
            },
{
    let p = crate::text::equal_to(mark);
    let k = lemma_skip_front(s, p);
    assert forall|i: int| 0 <= i < k implies #[trigger] s[i] == mark by {
        assert(p(s[i]));
    }
    assert(without_leading(s, mark) == s.skip(k));
}

/// Taking a mark from the back takes every one of it that trails, and nothing
/// else.
pub proof fn law_trailing_marks_are_taken(s: Seq<char>, mark: char)
    ensures
        exists|k: int|
            #![trigger s.take(k)]
            {
                &&& 0 <= k <= s.len()
                &&& without_trailing(s, mark) == s.take(k)
                &&& forall|i: int| k <= i < s.len() ==> #[trigger] s[i] == mark
                &&& k > 0 ==> s[k - 1] != mark
            },
{
    let p = crate::text::equal_to(mark);
    let k = lemma_skip_back(s, p);
    assert forall|i: int| k <= i < s.len() implies #[trigger] s[i] == mark by {
        assert(p(s[i]));
    }
    assert(without_trailing(s, mark) == s.take(k));
}

/// Splitting at the first mark gives what stands before it, in which there is
/// none, and all that stands behind it.
pub proof fn law_split_at_the_first_mark(s: Seq<char>, mark: char)
    ensures
        match split_first(s, mark) {
            Some((before, after)) => s == before.push(mark) + after && !before.contains(mark),
            None => !s.contains(mark),
        },
{
    s.index_of_first_ensures(mark);
    if s.contains(mark) {
        let i = s.index_of_first(mark)->0;
        assert(s =~= s.take(i).push(mark) + s.skip(i + 1));
        assert(!s.take(i).contains(mark)) by {
            if s.take(i).contains(mark) {
                let j = choose|j: int| 0 <= j < i && s.take(i)[j] == mark;
                assert(s[j] == mark);
            }
        }
    }
}

/// Splitting at the last mark gives all that stands before it, and what stands
/// behind it, in which there is none.
pub proof fn law_split_at_the_last_mark(s: Seq<char>, mark: char)
    ensures
        match split_last(s, mark) {
            Some((before, after)) => s == before.push(mark) + after && !after.contains(mark),
            None => !s.contains(mark),
        },
{
    s.index_of_last_ensures(mark);
    if s.contains(mark) {
        let i = s.index_of_last(mark)->0;
        assert(s =~= s.take(i).push(mark) + s.skip(i + 1));
        let after = s.skip(i + 1);
        assert(!after.contains(mark)) by {
            if after.contains(mark) {
                let j = choose|j: int| 0 <= j < after.len() && after[j] == mark;
                assert(s[i + 1 + j] == mark);
            }
        }
    }
}

/// What follows a prefix is what, put behind it, gives the text.
pub proof fn law_prefix_and_rest_make_the_text(s: Seq<char>, prefix: Seq<char>, rest: Seq<char>)
    ensures
        after_prefix(s, prefix) == Some(rest) <==> s == prefix + rest,
{
    if s == prefix + rest {
        assert(prefix.is_prefix_of(s));
        assert(s.skip(prefix.len() as int) =~= rest);
    } else if prefix.is_prefix_of(s) {
        assert(s =~= prefix + s.skip(prefix.len() as int));
    }
}

/// What precedes a suffix is what, put before it, gives the text.
pub proof fn law_rest_and_suffix_make_the_text(s: Seq<char>, suffix: Seq<char>, rest: Seq<char>)
    ensures
        before_suffix(s, suffix) == Some(rest) <==> s == rest + suffix,
{
    if s == rest + suffix {
        assert(suffix.is_suffix_of(s));
        assert(s.take(s.len() - suffix.len()) =~= rest);
    } else if suffix.is_suffix_of(s) {
        assert(s =~= s.take(s.len() - suffix.len()) + suffix);
    }
}

/// A line that is closed by a line feed is the first of the lines, without a
/// carriage return at its end, and what follows it makes up the others.
pub proof fn law_line_feed_closes_a_line(line: Seq<char>, rest: Seq<char>)
    requires
        !line.contains('\n'),
        line.len() > 0 ==> line.last() != '\r',
    ensures
        lines_of(line.push('\n') + rest) == seq![line] + lines_of(rest),
        lines_of(line.push('\r').push('\n') + rest) == seq![line] + lines_of(rest),
{
    lemma_first_line(line, rest);
    let long = line.push('\r');
    assert(!long.contains('\n')) by {
        if long.contains('\n') {
            let j = choose|j: int| 0 <= j < long.len() && long[j] == '\n';
            assert(line[j] == '\n');
        }
    }
    lemma_first_line(long, rest);
    assert(without_cr(long) =~= line);
}

proof fn lemma_first_line(line: Seq<char>, rest: Seq<char>)
    requires
        !line.contains('\n'),
    ensures
        lines_of(line.push('\n') + rest) == seq![without_cr(line)] + lines_of(rest),
{
    let s = line.push('\n') + rest;
    let k = line.len() as int;
    assert(s[k] == '\n');
    s.index_of_first_ensures('\n');
    let i = s.index_of_first('\n')->0;
    assert(i == k) by {
        if i < k {
            assert(line[i] == '\n');
        }
    }
    assert(s.take(k) =~= line);
    assert(s.skip(k + 1) =~= rest);
}

/// What no line feed closes is a line all the same, unless there is nothing.
pub proof fn law_last_line_needs_no_line_feed(line: Seq<char>)
    requires
        !line.contains('\n'),
    ensures
        lines_of(line) == if line.len() == 0 {
            Seq::<Seq<char>>::empty()
        } else {
            seq![line]
        },
{
    line.index_of_first_ensures('\n');
}

/// Parts are joined with the separator between neighbours: nothing for no
/// part, the part itself for one, and the separator between what two lists
/// are joined to.
pub proof fn law_separator_stands_between_parts(
    a: Seq<Seq<char>>,
    b: Seq<Seq<char>>,
    part: Seq<char>,
    sep: Seq<char>,
)
    ensures
        joined(Seq::empty(), sep) == Seq::<char>::empty(),
        joined(seq![part], sep) == part,
        a.len() > 0 && b.len() > 0 ==> joined(a + b, sep) == joined(a, sep) + sep + joined(b, sep),
    decreases b.len(),
{
    if a.len() > 0 && b.len() > 0 {
        assert((a + b).drop_last() =~= a + b.drop_last());
        assert((a + b).last() == b.last());
        if b.len() == 1 {
            assert(a + b.drop_last() =~= a);
        } else {
            law_separator_stands_between_parts(a, b.drop_last(), part, sep);
            assert(joined(a + b, sep) =~= joined(a, sep) + sep + joined(b, sep));
        }
    }
}

/// Every part stands in what the parts are joined to.
pub proof fn law_every_part_is_joined(parts: Seq<Seq<char>>, sep: Seq<char>, i: int)
    requires
        0 <= i < parts.len(),
    ensures
        exists|before: Seq<char>, after: Seq<char>|
            joined(parts, sep) == #[trigger] (before + parts[i] + after),
    decreases parts.len(),
{
    let e = Seq::<char>::empty();
    if parts.len() == 1 {
        assert(joined(parts, sep) =~= e + parts[i] + e);
    } else if i == parts.len() - 1 {
        assert(joined(parts, sep) =~= (joined(parts.drop_last(), sep) + sep) + parts[i] + e);
    } else {
        law_every_part_is_joined(parts.drop_last(), sep, i);
        let (before, after) = choose|before: Seq<char>, after: Seq<char>|
            joined(parts.drop_last(), sep) == #[trigger] (before + parts.drop_last()[i] + after);
        assert(joined(parts, sep) =~= before + parts[i] + (after + sep + parts.last()));
    }
}

/// The number that digits stand for.
pub open spec fn value_of(digits: Seq<char>) -> int
    decreases digits.len(),
{
    if digits.len() == 0 {
        0
    } else {
        10 * value_of(digits.drop_last()) + (digits.last() as int - 48)
    }
}

/// A numeral stands for its number, is made of decimal digits and has no
/// needless zero in front.
pub proof fn law_numeral_stands_for_its_number(n: nat)
    ensures
        value_of(numeral(n)) == n,
        numeral(n).len() > 0,
        forall|i: int| 0 <= i < numeral(n).len() ==> '0' <= #[trigger] numeral(n)[i] <= '9',
        numeral(n).len() > 1 ==> numeral(n)[0] != '0',
    decreases n,
{
    reveal_with_fuel(value_of, 2);
    if n < 10 {
        assert(numeral(n) == seq![digit(n)]);
        assert(numeral(n).drop_last() =~= Seq::<char>::empty());
        assert(digit(n) as int == 48 + n);
    } else {
        let front = numeral(n / 10);
        law_numeral_stands_for_its_number(n / 10);
        assert(numeral(n).drop_last() =~= front);
        assert(digit(n % 10) as int == 48 + n % 10);
        if front.len() == 1 {
            assert(front[0] as int - 48 == n / 10) by {
                assert(front.drop_last() =~= Seq::<char>::empty());
            }
        }
    }
}

} // verus!
