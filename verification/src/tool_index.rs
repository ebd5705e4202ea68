//! Discovery of hidden tools by similarity: what is indexed, and how what is
//! found is ranked.

use vstd::prelude::*;
use vstd::string::*;

use crate::memory_index::Score;
use crate::tool::{ToolDefinition, ToolDefinitionView, ToolRegistry, Visibility};

verus! {

/// A hidden tool found by similarity search.
#[derive(Debug)]
pub struct DiscoveredTool {
    pub name: String,
    /// Similarity; higher means more similar.
    pub score: Score,
    /// The similarity as it is shown, with three decimals.
    pub shown: String,
}

#[verifier::ext_equal]
pub struct DiscoveredToolView {
    pub name: Seq<char>,
    pub score: Score,
    pub shown: Seq<char>,
}

impl View for DiscoveredTool {
    type V = DiscoveredToolView;

    open spec fn view(&self) -> DiscoveredToolView {
        DiscoveredToolView { name: self.name@, score: self.score, shown: self.shown@ }
    }
}

impl DeepView for DiscoveredTool {
    type V = DiscoveredToolView;

    open spec fn deep_view(&self) -> DiscoveredToolView {
        self@
    }
}

impl Clone for DiscoveredTool {
    fn clone(&self) -> (r: Self)
        ensures
            r@ == self@,
    {
        DiscoveredTool {
            name: self.name.clone(),
            score: self.score,
            shown: self.shown.clone(),
        }
    }
}

/// The text that stands for a tool in the index.
pub open spec fn embedding_text(name: Seq<char>, description: Seq<char>) -> Seq<char> {
    name + "\n"@ + description
}

/// The text that stands for a tool in the index: its name, then its
/// description.
pub fn tool_embedding_text(definition: &ToolDefinition) -> (r: String)
    ensures
        r@ == embedding_text(definition@.name, definition@.description),
{
    let mut r = definition.name.clone();
    r.append("\n");
    r.append(definition.description.as_str());
    r
}

/// The definitions of a registry's hidden tools, in order.
pub open spec fn hidden_of<R: ToolRegistry>(registry: R) -> Seq<ToolDefinitionView> {
    registry.defined().filter(
        |d: ToolDefinitionView| registry.visibility_of(d.name) == Some(Visibility::Hidden),
    )
}

/// The definitions of a registry's hidden tools: what is indexed and what
/// tool search can show.
pub fn hidden_definitions<R: ToolRegistry>(registry: &R) -> (r: Vec<ToolDefinition>)
    ensures
        r.deep_view() == hidden_of(*registry),
{
    let all = registry.definitions();
    let mut r: Vec<ToolDefinition> = Vec::new();
    let ghost hidden = |d: ToolDefinitionView|
        registry.visibility_of(d.name) == Some(Visibility::Hidden);
    let mut i: usize = 0;
    while i < all.len()
        invariant
            i <= all@.len(),
            all.deep_view() == registry.defined(),
            hidden == |d: ToolDefinitionView|
                registry.visibility_of(d.name) == Some(Visibility::Hidden),
            r.deep_view() == registry.defined().take(i as int).filter(hidden),
        decreases all@.len() - i,
    {
        proof {
            reveal(Seq::filter);
            let next = registry.defined().take(i + 1);
            assert(next.drop_last() =~= registry.defined().take(i as int));
            assert(next.last() == all@[i as int]@);
        }
        if registry.visibility(all[i].name.as_str()) == Some(Visibility::Hidden) {
            let ghost before = r.deep_view();
            r.push(all[i].clone());
            assert(r.deep_view() =~= before.push(all@[i as int]@));
        }
        i += 1;
    }
    assert(registry.defined().take(i as int) =~= registry.defined());
    r
}

/// A visible tool is never indexed, and no hidden one is left out.
pub proof fn law_only_hidden_tools_are_indexed<R: ToolRegistry>(registry: R, d: ToolDefinitionView)
    ensures
        hidden_of(registry).contains(d) <==> registry.defined().contains(d)
            && registry.visibility_of(d.name) == Some(Visibility::Hidden),
{
    let hidden = |d: ToolDefinitionView|
        registry.visibility_of(d.name) == Some(Visibility::Hidden);
    lemma_filter_contains(registry.defined(), hidden, d);
}

pub(crate) proof fn lemma_filter_contains(
    all: Seq<ToolDefinitionView>,
    p: spec_fn(ToolDefinitionView) -> bool,
    d: ToolDefinitionView,
)
    ensures
        all.filter(p).contains(d) <==> all.contains(d) && p(d),
    decreases all.len(),
{
    reveal(Seq::filter);
    if all.len() > 0 {
        let front = all.drop_last();
        lemma_filter_contains(front, p, d);
        if all.contains(d) && p(d) {
            let k = choose|k: int| 0 <= k < all.len() && all[k] == d;
            if k < front.len() {
                assert(front[k] == d);
                let j = choose|j: int| 0 <= j < front.filter(p).len() && front.filter(p)[j] == d;
                assert(all.filter(p)[j] == d);
            } else {
                assert(all.filter(p).last() == d);
            }
        }
        if all.filter(p).contains(d) {
            let j = choose|j: int| 0 <= j < all.filter(p).len() && all.filter(p)[j] == d;
            if j < front.filter(p).len() {
                assert(front.filter(p)[j] == d);
                let k = choose|k: int| 0 <= k < front.len() && front[k] == d;
                assert(all[k] == d);
            } else {
                assert(all[all.len() - 1] == d);
            }
        }
    }
}

/// Whether the item at `i` ranks before the one at `j`: a higher score first,
/// and of equal scores the earlier one.
pub open spec fn ranks_before(items: Seq<DiscoveredToolView>, i: int, j: int) -> bool {
    items[i].score > items[j].score || (items[i].score == items[j].score && i < j)
}

/// Whether `order` lists the positions of all items from the best on.
pub open spec fn ranking(items: Seq<DiscoveredToolView>, order: Seq<int>) -> bool {
    &&& order.len() == items.len()
    &&& forall|a: int| 0 <= a < order.len() ==> 0 <= #[trigger] order[a] < items.len()
    &&& forall|a: int, b: int|
        0 <= a < b < order.len() ==> ranks_before(items, #[trigger] order[a], #[trigger] order[b])
}

/// Whether `best` is the first `k` items of a ranking, or all of them.
pub open spec fn top_of(
    items: Seq<DiscoveredToolView>,
    k: nat,
    best: Seq<DiscoveredToolView>,
) -> bool {
    exists|order: Seq<int>| #[trigger]
        ranking(items, order) && best.len() == if k < items.len() {
            k
        } else {
            items.len()
        } && forall|a: int| 0 <= a < best.len() ==> best[a] == items[#[trigger] order[a]]
}

/// The `k` most similar tools, best first; equally similar ones keep their
/// order.
pub fn top_k(items: &Vec<DiscoveredTool>, k: usize) -> (r: Vec<DiscoveredTool>)
    ensures
        top_of(items.deep_view(), k as nat, r.deep_view()),
{
    let ghost views = items.deep_view();
    let mut order: Vec<usize> = Vec::new();
    let mut i: usize = 0;
    while i < items.len()
        invariant
            i <= items@.len(),
            views == items.deep_view(),
            order@.len() == i,
            forall|a: int| 0 <= a < order@.len() ==> 0 <= #[trigger] order@[a] < i,
            forall|a: int, b: int|
                0 <= a < b < order@.len() ==> ranks_before(
                    views,
                    (#[trigger] order@[a]) as int,
                    (#[trigger] order@[b]) as int,
                ),
        decreases items@.len() - i,
    {
        let mut at: usize = order.len();
        while at > 0 && items[order[at - 1]].score < items[i].score
            invariant
                at <= order@.len(),
                i < items@.len(),
                views == items.deep_view(),
                forall|a: int| 0 <= a < order@.len() ==> 0 <= #[trigger] order@[a] < i,
                forall|b: int|
                    at <= b < order@.len() ==> views[(#[trigger] order@[b]) as int].score
                        < views[i as int].score,
            decreases at,
        {
            assert(views[order@[at - 1] as int].score == items@[order@[at - 1] as int].score);
            at -= 1;
        }
        let ghost before = order@;
        order.insert(at, i);
        proof {
            assert forall|a: int| 0 <= a < order@.len() implies 0 <= #[trigger] order@[a] < i + 1 by {
                if a < at {
                    assert(order@[a] == before[a]);
                } else if a > at {
                    assert(order@[a] == before[a - 1]);
                }
            }
            assert forall|a: int, b: int| 0 <= a < b < order@.len() implies ranks_before(
                views,
                (#[trigger] order@[a]) as int,
                (#[trigger] order@[b]) as int,
            ) by {
                if b < at {
                    assert(order@[a] == before[a] && order@[b] == before[b]);
                } else if b == at {
                    assert(order@[a] == before[a]);
                    if at > 0 {
                        let last = before[at - 1];
                        assert(views[last as int].score == items@[last as int].score);
                        if a < at - 1 {
                            assert(ranks_before(views, before[a] as int, before[at - 1] as int));
                        }
                    }
                } else {
                    assert(order@[b] == before[b - 1]);
                    if a < at {
                        assert(order@[a] == before[a]);
                    } else if a > at {
                        assert(order@[a] == before[a - 1]);
                    }
                }
            }
        }
        i += 1;
    }
    let ghost positions = order@.map_values(|p: usize| p as int);
    assert(ranking(views, positions));
    let n: usize = if k < order.len() {
        k
    } else {
        order.len()
    };
    let mut r: Vec<DiscoveredTool> = Vec::new();
    let mut a: usize = 0;
    while a < n
        invariant
            a <= n <= order@.len(),
            order@.len() == items@.len(),
            r@.len() == a,
            forall|b: int| 0 <= b < order@.len() ==> 0 <= #[trigger] order@[b] < items@.len(),
            forall|b: int| 0 <= b < a ==> (#[trigger] r@[b])@ == items@[order@[b] as int]@,
        decreases n - a,
    {
        r.push(items[order[a]].clone());
        a += 1;
    }
    assert forall|b: int| 0 <= b < r.deep_view().len() implies r.deep_view()[b]
        == views[#[trigger] positions[b]] by {
        assert(r@[b]@ == items@[order@[b] as int]@);
    }
    r
}

proof fn lemma_ranking_covers(items: Seq<DiscoveredToolView>, order: Seq<int>, x: int)
    requires
        ranking(items, order),
        0 <= x < items.len(),
    ensures
        order.contains(x),
{
    assert(order.no_duplicates()) by {
        assert forall|a: int, b: int|
            0 <= a < order.len() && 0 <= b < order.len() && a != b implies order[a]
            != order[b] by {
            if a < b {
                assert(ranks_before(items, order[a], order[b]));
            } else {
                assert(ranks_before(items, order[b], order[a]));
            }
        }
    }
    order.unique_seq_to_set();
    vstd::set_lib::lemma_int_range(0, items.len() as int);
    let all = vstd::set_lib::set_int_range(0, items.len() as int);
    assert(order.to_set().subset_of(all)) by {
        assert forall|y: int| order.to_set().contains(y) implies all.contains(y) by {
            let a = choose|a: int| 0 <= a < order.len() && order[a] == y;
            assert(0 <= order[a] < items.len());
        }
    }
    vstd::set_lib::lemma_subset_equality(order.to_set(), all);
    assert(order.to_set().contains(x));
}

/// What the top of a ranking promises: at most `k` of the items, sorted by
/// descending score, and none that was left out is better than one that was
/// kept.
pub proof fn law_top_is_sorted_and_best(
    items: Seq<DiscoveredToolView>,
    k: nat,
    best: Seq<DiscoveredToolView>,
)
    requires
        top_of(items, k, best),
    ensures
        best.len() <= k,
        best.len() == k || best.len() == items.len(),
        forall|i: int, j: int|
            0 <= i < j < best.len() ==> (#[trigger] best[i]).score >= (#[trigger] best[j]).score,
        forall|i: int| 0 <= i < best.len() ==> items.contains(#[trigger] best[i]),
        forall|x: int, i: int|
            0 <= x < items.len() && 0 <= i < best.len() ==> best.contains(#[trigger] items[x])
                || items[x].score <= (#[trigger] best[i]).score,
{
    let order = choose|order: Seq<int>| #[trigger]
        ranking(items, order) && best.len() == if k < items.len() {
            k
        } else {
            items.len()
        } && forall|a: int| 0 <= a < best.len() ==> best[a] == items[#[trigger] order[a]];
    assert forall|i: int, j: int| 0 <= i < j < best.len() implies (#[trigger] best[i]).score >= (
    #[trigger] best[j]).score by {
        assert(ranks_before(items, order[i], order[j]));
    }
    assert forall|i: int| 0 <= i < best.len() implies items.contains(#[trigger] best[i]) by {
        assert(items[order[i]] == best[i]);
    }
    assert forall|x: int, i: int| 0 <= x < items.len() && 0 <= i < best.len() implies best.contains(
        #[trigger] items[x],
    ) || items[x].score <= (#[trigger] best[i]).score by {
        lemma_ranking_covers(items, order, x);
        let a = choose|a: int| 0 <= a < order.len() && order[a] == x;
        if a < best.len() {
            assert(best[a] == items[order[a]]);
        } else {
            assert(ranks_before(items, order[i], order[a]));
            assert(best[i] == items[order[i]]);
        }
    }
}

} // verus!
