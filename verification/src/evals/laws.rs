//! What the evaluations count, in terms of the outcomes they are given.

use vstd::prelude::*;

use crate::evals::dataset::{case_lines, file_name_of, path_parts, stem_of};
use crate::evals::drift::{
    boundaries, close_ones, metrics_of, quadrant, role_of_turn, tally, total_gap, Boundary,
    CaseOutcome, Confusion, DriftMetrics, TurnRole,
};
use crate::evals::tool_search::{count_of, invocation, InvocationOutcome};
use crate::models::message::Role;
use crate::text::{before_suffix, is_white, split_last, trimmed};
use crate::text_laws::{
    law_rest_and_suffix_make_the_text, law_split_at_the_last_mark,
    law_trimming_takes_the_white_space_at_the_ends,
};

verus! {

// ---------------------------------------------------------------------------
// Drift
// ---------------------------------------------------------------------------

/// A case is positive where a shift was detected, and true where that is what
/// was expected.
pub proof fn law_quadrant_tells_expected_and_detected(expected: bool, detected: bool)
    ensures
        quadrant(expected, detected) == Confusion::TruePositive <==> expected && detected,
        quadrant(expected, detected) == Confusion::FalsePositive <==> !expected && detected,
        quadrant(expected, detected) == Confusion::TrueNegative <==> !expected && !detected,
        quadrant(expected, detected) == Confusion::FalseNegative <==> expected && !detected,
{
}

/// A boundary is as far off as its two turns lie apart, whichever comes first.
pub proof fn law_gap_is_the_distance(a: usize, b: usize)
    ensures
        ({
            let gap = Boundary { expected: a, predicted: b }.gap();
            &&& a + gap == b || b + gap == a
            &&& Boundary { expected: b, predicted: a }.gap() == gap
            &&& gap == 0 <==> a == b
        }),
{
}

/// One more outcome counts once, in its own quadrant and in no other; its
/// boundary, where it has one, counts with what it is off.
pub proof fn law_outcome_counts_once(outcomes: Seq<CaseOutcome>, last: CaseOutcome, c: Confusion)
    ensures
        tally(Seq::empty(), c) == 0,
        tally(outcomes.push(last), c) == tally(outcomes, c) + if last.confusion == c {
            1int
        } else {
            0int
        },
        boundaries(Seq::empty()).len() == 0,
        last.boundary is Some ==> boundaries(outcomes.push(last)) == boundaries(outcomes).push(
            last.boundary->0,
        ),
        last.boundary is None ==> boundaries(outcomes.push(last)) == boundaries(outcomes),
{
    assert(outcomes.push(last).drop_last() =~= outcomes);
}

/// One more boundary counts among the close ones exactly if it is close, and
/// adds what it is off.
pub proof fn law_boundary_counts_with_its_gap(all: Seq<Boundary>, last: Boundary, tolerance: nat)
    ensures
        close_ones(Seq::empty(), tolerance) == 0,
        close_ones(all.push(last), tolerance) == close_ones(all, tolerance) + if last.gap()
            <= tolerance {
            1int
        } else {
            0int
        },
        total_gap(Seq::empty()) == 0,
        total_gap(all.push(last)) == total_gap(all) + last.gap(),
{
    assert(all.push(last).drop_last() =~= all);
}

/// The rates of a run are those of its counts: precision over what was
/// detected, recall over what was expected, accuracy over all. What has
/// nothing to be measured against is perfect, and a boundary rate zero.
pub proof fn law_rates_are_those_of_the_counts(m: DriftMetrics, outcomes: Seq<CaseOutcome>)
    requires
        metrics_of(m, outcomes),
    ensures
        m.total == outcomes.len(),
        m.true_positives + m.false_positives > 0 ==> m.precision.numerator == m.true_positives
            && m.precision.denominator == m.true_positives + m.false_positives,
        m.true_positives + m.false_positives == 0 ==> m.precision.numerator == 1
            && m.precision.denominator == 1,
        m.true_positives + m.false_negatives > 0 ==> m.recall.numerator == m.true_positives
            && m.recall.denominator == m.true_positives + m.false_negatives,
        m.true_positives + m.false_negatives == 0 ==> m.recall.numerator == 1
            && m.recall.denominator == 1,
        m.true_positives + m.false_positives + m.false_negatives > 0 ==> m.f1.numerator == 2
            * m.true_positives && m.f1.denominator == 2 * m.true_positives + m.false_positives
            + m.false_negatives,
        m.total > 0 ==> m.accuracy.numerator == m.true_positives + m.true_negatives
            && m.accuracy.denominator == m.total,
        m.total == 0 ==> m.accuracy.numerator == 1 && m.accuracy.denominator == 1,
        m.boundary_total > 0 ==> m.boundary_exact_rate.numerator == m.boundary_exact
            && m.boundary_exact_rate.denominator == m.boundary_total
            && m.mean_boundary_distance.denominator == m.boundary_total
            && m.mean_boundary_distance.numerator == total_gap(boundaries(outcomes)),
        m.boundary_total == 0 ==> m.boundary_exact_rate.numerator == 0
            && m.mean_boundary_distance.numerator == 0,
{
}

/// A run with one more outcome has one more in all, one more in the quadrant of
/// the outcome alone, and one more boundary where the outcome has one.
pub proof fn law_metrics_grow_with_the_run(
    before: DriftMetrics,
    after: DriftMetrics,
    outcomes: Seq<CaseOutcome>,
    last: CaseOutcome,
)
    requires
        metrics_of(before, outcomes),
        metrics_of(after, outcomes.push(last)),
    ensures
        after.total == before.total + 1,
        after.true_positives - before.true_positives == if last.confusion
            == Confusion::TruePositive {
            1int
        } else {
            0int
        },
        after.false_positives - before.false_positives == if last.confusion
            == Confusion::FalsePositive {
            1int
        } else {
            0int
        },
        after.true_negatives - before.true_negatives == if last.confusion
            == Confusion::TrueNegative {
            1int
        } else {
            0int
        },
        after.false_negatives - before.false_negatives == if last.confusion
            == Confusion::FalseNegative {
            1int
        } else {
            0int
        },
        after.boundary_total - before.boundary_total == if last.boundary is Some {
            1int
        } else {
            0int
        },
        after.boundary_exact - before.boundary_exact == if last.boundary is Some
            && last.boundary->0.expected == last.boundary->0.predicted {
            1int
        } else {
            0int
        },
        after.boundary_within_one - before.boundary_within_one == if last.boundary is Some
            && -1 <= last.boundary->0.expected - last.boundary->0.predicted <= 1 {
            1int
        } else {
            0int
        },
{
    law_outcome_counts_once(outcomes, last, Confusion::TruePositive);
    law_outcome_counts_once(outcomes, last, Confusion::FalsePositive);
    law_outcome_counts_once(outcomes, last, Confusion::TrueNegative);
    law_outcome_counts_once(outcomes, last, Confusion::FalseNegative);
    if last.boundary is Some {
        law_boundary_counts_with_its_gap(boundaries(outcomes), last.boundary->0, 0);
        law_boundary_counts_with_its_gap(boundaries(outcomes), last.boundary->0, 1);
    }
}

/// A turn is said in its own role.
pub proof fn law_turn_keeps_its_role()
    ensures
        role_of_turn(TurnRole::User) == Role::User,
        role_of_turn(TurnRole::Assistant) == Role::Assistant,
        role_of_turn(TurnRole::System) == Role::System,
{
}

// ---------------------------------------------------------------------------
// Tool discovery
// ---------------------------------------------------------------------------

/// A case matches exactly if the first call was the expected one; a case
/// without a call is no mismatch.
pub proof fn law_first_call_decides(expected: Seq<char>, observed: Option<Seq<char>>)
    ensures
        invocation(expected, observed) == InvocationOutcome::Match <==> observed == Some(expected),
        invocation(expected, observed) == InvocationOutcome::NoCall <==> observed is None,
{
}

/// One more outcome counts once, among those of its kind.
pub proof fn law_discovery_counts_once(
    outcomes: Seq<crate::evals::tool_search::CaseOutcome>,
    last: crate::evals::tool_search::CaseOutcome,
    kind: InvocationOutcome,
)
    ensures
        count_of(Seq::empty(), kind) == 0,
        count_of(outcomes.push(last), kind) == count_of(outcomes, kind) + if last.outcome == kind {
            1int
        } else {
            0int
        },
{
    assert(outcomes.push(last).drop_last() =~= outcomes);
}

// ---------------------------------------------------------------------------
// Datasets
// ---------------------------------------------------------------------------

/// One more line holds a case under its number unless it is blank or a
/// comment; the cases before it stay as they are.
pub proof fn law_line_holds_a_case_or_is_passed_over(lines: Seq<Seq<char>>, line: Seq<char>)
    ensures
        case_lines(Seq::empty()).len() == 0,
        (forall|i: int| 0 <= i < line.len() ==> is_white(#[trigger] line[i])) ==> case_lines(
            lines.push(line),
        ) == case_lines(lines),
        trimmed(line).len() > 0 && trimmed(line)[0] == '#' ==> case_lines(lines.push(line))
            == case_lines(lines),
        trimmed(line).len() > 0 && trimmed(line)[0] != '#' ==> case_lines(lines.push(line))
            == case_lines(lines).push((lines.len() + 1, trimmed(line))),
{
    assert(lines.push(line).drop_last() =~= lines);
    law_trimming_takes_the_white_space_at_the_ends(line);
    if forall|i: int| 0 <= i < line.len() ==> is_white(#[trigger] line[i]) {
        let (a, b) = choose|a: int, b: int|
            #![trigger line.subrange(a, b)]
            {
                &&& 0 <= a <= b <= line.len()
                &&& trimmed(line) == line.subrange(a, b)
                &&& forall|i: int| 0 <= i < a ==> is_white(#[trigger] line[i])
                &&& forall|i: int| b <= i < line.len() ==> is_white(#[trigger] line[i])
                &&& a < b ==> !is_white(line[a]) && !is_white(line[b - 1])
            };
        assert(a == b) by {
            if a < b {
                assert(is_white(line[a]));
            }
        }
        assert(trimmed(line).len() == 0);
    }
}

/// The split of a text at a mark that does not occur behind it.
proof fn lemma_split_is(before: Seq<char>, mark: char, after: Seq<char>)
    requires
        !after.contains(mark),
    ensures
        split_last(before.push(mark) + after, mark) == Some((before, after)),
{
    let s = before.push(mark) + after;
    law_split_at_the_last_mark(s, mark);
    assert(s[before.len() as int] == mark);
    assert(s.contains(mark));
    let (b, a) = split_last(s, mark)->0;
    let at = b.len() as int;
    let k = before.len() as int;
    assert(s == b.push(mark) + a);
    assert(s[at] == mark) by {
        assert((b.push(mark) + a)[at] == mark);
    }
    if at < k {
        assert((b.push(mark) + a)[k] == a[k - at - 1]);
        assert(a.contains(mark));
    } else if at > k {
        assert(s[at] == after[at - k - 1]);
        assert(after.contains(mark));
    }
    assert(b =~= s.take(at) && a =~= s.skip(at + 1)) by {
        assert(s.take(at) =~= (b.push(mark) + a).take(at));
    }
    assert(before =~= s.take(k) && after =~= s.skip(k + 1));
}

/// A name in a directory is the file name of its path, and so is a name alone.
pub proof fn law_last_part_is_the_file_name(dir: Seq<char>, name: Seq<char>)
    requires
        name.len() > 0,
        !name.contains('/'),
        name != "."@,
        name != ".."@,
    ensures
        file_name_of(name) == Some(name),
        file_name_of(dir.push('/') + name) == Some(name),
{
    name.index_of_last_ensures('/');
    assert(split_last(name, '/') is None);
    assert(path_parts(name) =~= seq![name]);
    lemma_split_is(dir, '/', name);
    let path = dir.push('/') + name;
    assert(dir.len() < path.len());
    assert(path_parts(path) =~= path_parts(dir).push(name));
}

/// A dataset is named for its action and its version: `action.version.jsonl`.
pub proof fn law_dataset_is_named_for_action_and_version(
    dir: Seq<char>,
    action: Seq<char>,
    version: Seq<char>,
)
    requires
        action.len() > 0,
        version.len() > 0,
        !action.contains('/'),
        !version.contains('/'),
        !version.contains('.'),
    ensures
        stem_of(dir.push('/') + (action.push('.') + version + ".jsonl"@)) == Some(
            (action, version),
        ),
{
    reveal_strlit(".jsonl");
    reveal_strlit(".");
    reveal_strlit("..");
    let stem = action.push('.') + version;
    let name = stem + ".jsonl"@;
    assert(!name.contains('/')) by {
        if name.contains('/') {
            let j = choose|j: int| 0 <= j < name.len() && name[j] == '/';
            if j < action.len() {
                assert(action[j] == '/');
            } else if action.len() < j < stem.len() {
                assert(version[j - action.len() - 1] == '/');
            }
        }
    }
    law_last_part_is_the_file_name(dir, name);
    law_rest_and_suffix_make_the_text(name, ".jsonl"@, stem);
    lemma_split_is(action, '.', version);
    assert(before_suffix(name, ".jsonl"@) == Some(stem));
}

/// A file of another kind is no dataset.
pub proof fn law_other_files_are_no_datasets(dir: Seq<char>, name: Seq<char>)
    requires
        name.len() > 0,
        !name.contains('/'),
        name != "."@,
        name != ".."@,
        !(".jsonl"@).is_suffix_of(name),
    ensures
        stem_of(dir.push('/') + name) is None,
{
    law_last_part_is_the_file_name(dir, name);
}

} // verus!
