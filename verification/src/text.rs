//! Text as sequences of characters: trimming, splitting, joining and numerals.

use vstd::prelude::*;
use vstd::string::*;

verus! {

/// `String::push` appends one character at the end of the string.
pub assume_specification[ String::push ](s: &mut String, c: char)
    ensures
        final(s)@ == old(s)@.push(c),
;

/// Unicode's `White_Space` property.
pub open spec fn is_white(c: char) -> bool {
    let n = c as u32;
    ||| 0x9 <= n <= 0xD
    ||| n == 0x20
    ||| n == 0x85
    ||| n == 0xA0
    ||| n == 0x1680
    ||| 0x2000 <= n <= 0x200A
    ||| n == 0x2028
    ||| n == 0x2029
    ||| n == 0x202F
    ||| n == 0x205F
    ||| n == 0x3000
}

/// `s` without its longest prefix of characters that satisfy `p`.
pub open spec fn skip_front(s: Seq<char>, p: spec_fn(char) -> bool) -> Seq<char>
    decreases s.len(),
{
    if s.len() > 0 && p(s[0]) {
        skip_front(s.drop_first(), p)
    } else {
        s
    }
}

/// `s` without its longest suffix of characters that satisfy `p`.
pub open spec fn skip_back(s: Seq<char>, p: spec_fn(char) -> bool) -> Seq<char>
    decreases s.len(),
{
    if s.len() > 0 && p(s.last()) {
        skip_back(s.drop_last(), p)
    } else {
        s
    }
}

pub open spec fn trimmed_start(s: Seq<char>) -> Seq<char> {
    skip_front(s, |c: char| is_white(c))
}

pub open spec fn trimmed_end(s: Seq<char>) -> Seq<char> {
    skip_back(s, |c: char| is_white(c))
}

/// `s` without leading and trailing white space.
pub open spec fn trimmed(s: Seq<char>) -> Seq<char> {
    trimmed_end(trimmed_start(s))
}

/// The characters equal to `mark`.
pub open spec fn equal_to(mark: char) -> spec_fn(char) -> bool {
    |c: char| c == mark
}

/// `s` without leading occurrences of `mark`.
pub open spec fn without_leading(s: Seq<char>, mark: char) -> Seq<char> {
    skip_front(s, equal_to(mark))
}

/// `s` without trailing occurrences of `mark`.
pub open spec fn without_trailing(s: Seq<char>, mark: char) -> Seq<char> {
    skip_back(s, equal_to(mark))
}

/// The parts of `s` around the first occurrence of `mark`.
pub open spec fn split_first(s: Seq<char>, mark: char) -> Option<(Seq<char>, Seq<char>)> {
    match s.index_of_first(mark) {
        Some(i) => Some((s.take(i), s.skip(i + 1))),
        None => None,
    }
}

/// The parts of `s` around the last occurrence of `mark`.
pub open spec fn split_last(s: Seq<char>, mark: char) -> Option<(Seq<char>, Seq<char>)> {
    match s.index_of_last(mark) {
        Some(i) => Some((s.take(i), s.skip(i + 1))),
        None => None,
    }
}

/// A line without the carriage return that closes it.
pub open spec fn without_cr(line: Seq<char>) -> Seq<char> {
    if line.len() > 0 && line.last() == '\r' {
        line.drop_last()
    } else {
        line
    }
}

/// The lines of `s`. A line ends at a line feed, with or without a carriage
/// return before it; the last line may lack one.
pub open spec fn lines_of(s: Seq<char>) -> Seq<Seq<char>>
    decreases s.len(),
{
    if s.len() == 0 {
        Seq::empty()
    } else {
        match s.index_of_first('\n') {
            Some(i) => if 0 <= i < s.len() {
                seq![without_cr(s.take(i))] + lines_of(s.skip(i + 1))
            } else {
                Seq::empty()
            },
            None => seq![s],
        }
    }
}

/// The parts one after the other, with `sep` between neighbours.
pub open spec fn joined(parts: Seq<Seq<char>>, sep: Seq<char>) -> Seq<char>
    decreases parts.len(),
{
    if parts.len() == 0 {
        Seq::empty()
    } else if parts.len() == 1 {
        parts[0]
    } else {
        joined(parts.drop_last(), sep) + sep + parts.last()
    }
}

/// The decimal digit of a number below ten.
pub open spec fn digit(d: nat) -> char {
    (48 + d) as char
}

/// The decimal numeral of `n`, without leading zeros.
pub open spec fn numeral(n: nat) -> Seq<char>
    decreases n,
{
    if n < 10 {
        seq![digit(n)]
    } else {
        numeral(n / 10).push(digit(n % 10))
    }
}

pub open spec fn views(v: Seq<String>) -> Seq<Seq<char>> {
    v.map_values(|s: String| s@)
}

proof fn lemma_skip_front(s: Seq<char>, p: spec_fn(char) -> bool, k: int)
    requires
        0 <= k <= s.len(),
        forall|i: int| 0 <= i < k ==> p(#[trigger] s[i]),
        k < s.len() ==> !p(s[k]),
    ensures
        skip_front(s, p) == s.skip(k),
    decreases k,
{
    if k > 0 {
        assert(s.drop_first().skip(k - 1) =~= s.skip(k));
        assert forall|i: int| 0 <= i < k - 1 implies p(#[trigger] s.drop_first()[i]) by {
            assert(s.drop_first()[i] == s[i + 1]);
        }
        lemma_skip_front(s.drop_first(), p, k - 1);
    } else {
        assert(s.skip(0) =~= s);
    }
}

proof fn lemma_skip_back(s: Seq<char>, p: spec_fn(char) -> bool, k: int)
    requires
        0 <= k <= s.len(),
        forall|i: int| k <= i < s.len() ==> p(#[trigger] s[i]),
        k > 0 ==> !p(s[k - 1]),
    ensures
        skip_back(s, p) == s.take(k),
    decreases s.len() - k,
{
    if k < s.len() {
        assert(s.drop_last().take(k) =~= s.take(k));
        lemma_skip_back(s.drop_last(), p, k);
    } else {
        assert(s.take(k) =~= s);
    }
}

proof fn lemma_first_index(s: Seq<char>, mark: char, k: int)
    requires
        0 <= k < s.len(),
        s[k] == mark,
        forall|i: int| 0 <= i < k ==> s[i] != mark,
    ensures
        s.index_of_first(mark) == Some(k),
{
    s.index_of_first_ensures(mark);
    assert(s.contains(mark));
}

proof fn lemma_last_index(s: Seq<char>, mark: char, k: int)
    requires
        0 <= k < s.len(),
        s[k] == mark,
        forall|i: int| k < i < s.len() ==> s[i] != mark,
    ensures
        s.index_of_last(mark) == Some(k),
{
    s.index_of_last_ensures(mark);
    assert(s.contains(mark));
}

/// The characters of `s`.
pub fn chars_of(s: &str) -> (r: Vec<char>)
    ensures
        r@ == s@,
{
    let mut r: Vec<char> = Vec::new();
    for c in it: s.chars()
        invariant
            r@ == it.seq().take(it.index()),
            it.seq() == s@,
    {
        r.push(c);
        assert(it.seq().take(it.index() + 1) =~= it.seq().take(it.index()).push(c));
    }
    assert(s@.take(s@.len() as int) =~= s@);
    r
}

/// The string of the characters from `from` up to `to`.
pub fn string_of(v: &Vec<char>, from: usize, to: usize) -> (r: String)
    requires
        from <= to <= v@.len(),
    ensures
        r@ == v@.subrange(from as int, to as int),
{
    let mut r = String::new();
    let mut i: usize = from;
    while i < to
        invariant
            from <= i <= to <= v@.len(),
            r@ == v@.subrange(from as int, i as int),
        decreases to - i,
    {
        r.push(v[i]);
        assert(v@.subrange(from as int, i + 1) =~= v@.subrange(from as int, i as int).push(v@[i as int]));
        i += 1;
    }
    r
}

/// Whether `c` is white space.
pub fn white(c: char) -> (r: bool)
    ensures
        r == is_white(c),
{
    let n: u32 = c as u32;
    (0x9 <= n && n <= 0xD) || n == 0x20 || n == 0x85 || n == 0xA0 || n == 0x1680 || (0x2000 <= n
        && n <= 0x200A) || n == 0x2028 || n == 0x2029 || n == 0x202F || n == 0x205F || n == 0x3000
}

/// `s` without leading white space.
pub fn trim_start(s: &str) -> (r: String)
    ensures
        r@ == trimmed_start(s@),
{
    let v = chars_of(s);
    let mut k: usize = 0;
    while k < v.len() && white(v[k])
        invariant
            k <= v@.len(),
            forall|i: int| 0 <= i < k ==> is_white(#[trigger] v@[i]),
        decreases v@.len() - k,
    {
        k += 1;
    }
    proof {
        lemma_skip_front(s@, |c: char| is_white(c), k as int);
    }
    string_of(&v, k, v.len())
}

/// `s` without trailing white space.
pub fn trim_end(s: &str) -> (r: String)
    ensures
        r@ == trimmed_end(s@),
{
    let v = chars_of(s);
    let mut k: usize = v.len();
    while k > 0 && white(v[k - 1])
        invariant
            k <= v@.len(),
            forall|i: int| k <= i < v@.len() ==> is_white(#[trigger] v@[i]),
        decreases k,
    {
        k -= 1;
    }
    proof {
        lemma_skip_back(s@, |c: char| is_white(c), k as int);
    }
    string_of(&v, 0, k)
}

/// `s` without leading and trailing white space.
pub fn trim(s: &str) -> (r: String)
    ensures
        r@ == trimmed(s@),
{
    let front = trim_start(s);
    trim_end(front.as_str())
}

/// `s` without leading occurrences of `mark`.
pub fn trim_start_matches(s: &str, mark: char) -> (r: String)
    ensures
        r@ == without_leading(s@, mark),
{
    let v = chars_of(s);
    let mut k: usize = 0;
    while k < v.len() && v[k] == mark
        invariant
            k <= v@.len(),
            forall|i: int| 0 <= i < k ==> #[trigger] v@[i] == mark,
        decreases v@.len() - k,
    {
        k += 1;
    }
    proof {
        lemma_skip_front(s@, equal_to(mark), k as int);
    }
    string_of(&v, k, v.len())
}

/// `s` without trailing occurrences of `mark`.
pub fn trim_end_matches(s: &str, mark: char) -> (r: String)
    ensures
        r@ == without_trailing(s@, mark),
{
    let v = chars_of(s);
    let mut k: usize = v.len();
    while k > 0 && v[k - 1] == mark
        invariant
            k <= v@.len(),
            forall|i: int| k <= i < v@.len() ==> #[trigger] v@[i] == mark,
        decreases k,
    {
        k -= 1;
    }
    proof {
        lemma_skip_back(s@, equal_to(mark), k as int);
    }
    string_of(&v, 0, k)
}

/// Splits `s` at the first occurrence of `mark`.
pub fn split_once(s: &str, mark: char) -> (r: Option<(String, String)>)
    ensures
        r.deep_view() == split_first(s@, mark),
{
    let v = chars_of(s);
    let mut k: usize = 0;
    while k < v.len()
        invariant
            k <= v@.len(),
            v@ == s@,
            forall|i: int| 0 <= i < k ==> v@[i] != mark,
        decreases v@.len() - k,
    {
        if v[k] == mark {
            proof {
                lemma_first_index(s@, mark, k as int);
            }
            let head = string_of(&v, 0, k);
            let tail = string_of(&v, k + 1, v.len());
            assert(head@ == s@.take(k as int));
            assert(tail@ == s@.skip(k + 1));
            return Some((head, tail));
        }
        k += 1;
    }
    proof {
        s@.index_of_first_ensures(mark);
    }
    None
}

/// Splits `s` at the last occurrence of `mark`.
pub fn rsplit_once(s: &str, mark: char) -> (r: Option<(String, String)>)
    ensures
        r.deep_view() == split_last(s@, mark),
{
    let v = chars_of(s);
    let mut k: usize = v.len();
    while k > 0
        invariant
            k <= v@.len(),
            v@ == s@,
            forall|i: int| k <= i < v@.len() ==> v@[i] != mark,
        decreases k,
    {
        k -= 1;
        if v[k] == mark {
            proof {
                lemma_last_index(s@, mark, k as int);
            }
            let head = string_of(&v, 0, k);
            let tail = string_of(&v, k + 1, v.len());
            assert(head@ == s@.take(k as int));
            assert(tail@ == s@.skip(k + 1));
            return Some((head, tail));
        }
    }
    proof {
        s@.index_of_last_ensures(mark);
    }
    None
}

/// The decimal numeral of `n`.
pub fn decimal(n: u64) -> (r: String)
    ensures
        r@ == numeral(n as nat),
    decreases n,
{
    let d: u8 = 48 + (n % 10) as u8;
    let mut r = if n < 10 {
        String::new()
    } else {
        decimal(n / 10)
    };
    r.push(d as char);
    r
}

/// Joins the parts with `sep` between them.
pub fn join(parts: &Vec<String>, sep: &str) -> (r: String)
    ensures
        r@ == joined(views(parts@), sep@),
{
    let mut r = String::new();
    let mut i: usize = 0;
    while i < parts.len()
        invariant
            i <= parts@.len(),
            r@ == joined(views(parts@).take(i as int), sep@),
        decreases parts@.len() - i,
    {
        if i > 0 {
            r.append(sep);
        }
        r.append(parts[i].as_str());
        assert(views(parts@).take(i + 1).drop_last() =~= views(parts@).take(i as int));
        assert(views(parts@).take(i + 1).last() == parts@[i as int]@);
        i += 1;
    }
    assert(views(parts@).take(i as int) =~= views(parts@));
    r
}

/// Whether two texts are equal.
pub fn same(a: &str, b: &str) -> (r: bool)
    ensures
        r == (a@ == b@),
{
    a.to_owned() == b.to_owned()
}

/// The lines of `s`.
pub fn lines(s: &str) -> (r: Vec<String>)
    ensures
        views(r@) == lines_of(s@),
{
    let v = chars_of(s);
    let ghost text = s@;
    let mut r: Vec<String> = Vec::new();
    let mut start: usize = 0;
    let mut i: usize = 0;
    assert(text.skip(0) =~= text);
    assert(views(r@) + lines_of(text) =~= lines_of(text));
    while i < v.len()
        invariant
            start <= i <= v@.len(),
            v@ == text,
            forall|k: int| start <= k < i ==> text[k] != '\n',
            views(r@) + lines_of(text.skip(start as int)) == lines_of(text),
        decreases v@.len() - i,
    {
        if v[i] == '\n' {
            let end: usize = if i > start && v[i - 1] == '\r' {
                i - 1
            } else {
                i
            };
            let line = string_of(&v, start, end);
            proof {
                let here = text.skip(start as int);
                let k = i - start;
                assert forall|j: int| 0 <= j < k implies here[j] != '\n' by {
                    assert(here[j] == text[start + j]);
                }
                lemma_first_index(here, '\n', k);
                assert(without_cr(here.take(k)) =~= line@);
                assert(here.skip(k + 1) =~= text.skip(i + 1));
                let before = views(r@);
                assert(views(r@.push(line)) =~= before.push(line@));
                assert(before.push(line@) + lines_of(text.skip(i + 1)) =~= before + (seq![line@]
                    + lines_of(text.skip(i + 1))));
            }
            r.push(line);
            start = i + 1;
        }
        i += 1;
    }
    if start < v.len() {
        let line = string_of(&v, start, v.len());
        proof {
            let here = text.skip(start as int);
            here.index_of_first_ensures('\n');
            assert(!here.contains('\n')) by {
                if here.contains('\n') {
                    let j = choose|j: int| 0 <= j < here.len() && here[j] == '\n';
                    assert(text[start + j] == '\n');
                }
            }
            assert(line@ =~= here);
            let before = views(r@);
            assert(views(r@.push(line)) =~= before + seq![line@]);
        }
        r.push(line);
    } else {
        assert(text.skip(start as int).len() == 0);
        assert(views(r@) =~= views(r@) + Seq::<Seq<char>>::empty());
    }
    r
}

/// Whether `s` begins with `mark`.
pub fn starts_with(s: &str, mark: char) -> (r: bool)
    ensures
        r == (s@.len() > 0 && s@[0] == mark),
{
    let v = chars_of(s);
    v.len() > 0 && v[0] == mark
}

/// What follows `prefix` in `s`, if `s` begins with it.
pub open spec fn after_prefix(s: Seq<char>, prefix: Seq<char>) -> Option<Seq<char>> {
    if prefix.is_prefix_of(s) {
        Some(s.skip(prefix.len() as int))
    } else {
        None
    }
}

/// What precedes `suffix` in `s`, if `s` ends with it.
pub open spec fn before_suffix(s: Seq<char>, suffix: Seq<char>) -> Option<Seq<char>> {
    if suffix.is_suffix_of(s) {
        Some(s.take(s.len() - suffix.len()))
    } else {
        None
    }
}

/// `s` without `prefix`, if it begins with it.
pub fn strip_prefix(s: &str, prefix: &str) -> (r: Option<String>)
    ensures
        r.deep_view() == after_prefix(s@, prefix@),
{
    let v = chars_of(s);
    let p = chars_of(prefix);
    if p.len() > v.len() {
        return None;
    }
    let mut i: usize = 0;
    while i < p.len()
        invariant
            i <= p@.len() <= v@.len(),
            v@ == s@,
            p@ == prefix@,
            forall|k: int| 0 <= k < i ==> v@[k] == p@[k],
        decreases p@.len() - i,
    {
        if v[i] != p[i] {
            assert(s@.subrange(0, prefix@.len() as int)[i as int] != prefix@[i as int]);
            return None;
        }
        i += 1;
    }
    assert(s@.subrange(0, prefix@.len() as int) =~= prefix@);
    let rest = string_of(&v, p.len(), v.len());
    assert(rest@ =~= s@.skip(prefix@.len() as int));
    Some(rest)
}

/// `s` without `suffix`, if it ends with it.
pub fn strip_suffix(s: &str, suffix: &str) -> (r: Option<String>)
    ensures
        r.deep_view() == before_suffix(s@, suffix@),
{
    let v = chars_of(s);
    let p = chars_of(suffix);
    if p.len() > v.len() {
        return None;
    }
    let start: usize = v.len() - p.len();
    let mut i: usize = 0;
    while i < p.len()
        invariant
            i <= p@.len() <= v@.len(),
            start == v.len() - p.len(),
            v@ == s@,
            p@ == suffix@,
            forall|k: int| 0 <= k < i ==> v@[start + k] == p@[k],
        decreases p@.len() - i,
    {
        if v[start + i] != p[i] {
            assert(s@.subrange(s@.len() - suffix@.len(), s@.len() as int)[i as int]
                != suffix@[i as int]);
            return None;
        }
        i += 1;
    }
    assert(s@.subrange(s@.len() - suffix@.len(), s@.len() as int) =~= suffix@);
    let rest = string_of(&v, 0, start);
    assert(rest@ =~= s@.take(s@.len() - suffix@.len()));
    Some(rest)
}

} // verus!
