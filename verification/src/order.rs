//! Stable ascending order of identities and of names.

use vstd::prelude::*;
use vstd::string::*;

use crate::text::{chars_of, views};

verus! {

/// Whether `order` lists the positions of all keys from the smallest on;
/// equal keys keep their order.
pub open spec fn ascending_ids(keys: Seq<u128>, order: Seq<int>) -> bool {
    &&& order.len() == keys.len()
    &&& forall|a: int| 0 <= a < order.len() ==> 0 <= #[trigger] order[a] < keys.len()
    &&& forall|a: int, b: int|
        0 <= a < b < order.len() ==> id_before(keys, #[trigger] order[a], #[trigger] order[b])
}

/// Whether the key at `i` comes before the one at `j`.
pub open spec fn id_before(keys: Seq<u128>, i: int, j: int) -> bool {
    keys[i] < keys[j] || (keys[i] == keys[j] && i < j)
}

/// An ascending order leaves no key out.
pub proof fn lemma_ids_covered(keys: Seq<u128>, order: Seq<int>, x: int)
    requires
        ascending_ids(keys, order),
        0 <= x < keys.len(),
    ensures
        order.contains(x),
{
    assert(order.no_duplicates()) by {
        assert forall|a: int, b: int|
            0 <= a < order.len() && 0 <= b < order.len() && a != b implies order[a]
            != order[b] by {
            if a < b {
                assert(id_before(keys, order[a], order[b]));
            } else {
                assert(id_before(keys, order[b], order[a]));
            }
        }
    }
    lemma_all_positions(order, keys.len(), x);
}

/// Positions that differ and are as many as there are leave none out.
proof fn lemma_all_positions(order: Seq<int>, n: nat, x: int)
    requires
        order.no_duplicates(),
        order.len() == n,
        forall|a: int| 0 <= a < order.len() ==> 0 <= #[trigger] order[a] < n,
        0 <= x < n,
    ensures
        order.contains(x),
{
    order.unique_seq_to_set();
    vstd::set_lib::lemma_int_range(0, n as int);
    let all = vstd::set_lib::set_int_range(0, n as int);
    assert(order.to_set().subset_of(all)) by {
        assert forall|y: int| order.to_set().contains(y) implies all.contains(y) by {
            let a = choose|a: int| 0 <= a < order.len() && order[a] == y;
            assert(0 <= order[a] < n);
        }
    }
    vstd::set_lib::lemma_subset_equality(order.to_set(), all);
    assert(order.to_set().contains(x));
}

pub open spec fn positions(order: Seq<usize>) -> Seq<int> {
    order.map_values(|p: usize| p as int)
}

/// The positions of the keys in ascending order.
pub fn order_ids(keys: &Vec<u128>) -> (r: Vec<usize>)
    ensures
        ascending_ids(keys@, positions(r@)),
        r@.len() == keys@.len(),
        forall|a: int| 0 <= a < r@.len() ==> (#[trigger] r@[a]) < keys@.len(),
{
    let mut order: Vec<usize> = Vec::new();
    let mut i: usize = 0;
    while i < keys.len()
        invariant
            i <= keys@.len(),
            order@.len() == i,
            forall|a: int| 0 <= a < order@.len() ==> 0 <= #[trigger] order@[a] < i,
            forall|a: int, b: int|
                0 <= a < b < order@.len() ==> id_before(
                    keys@,
                    (#[trigger] order@[a]) as int,
                    (#[trigger] order@[b]) as int,
                ),
        decreases keys@.len() - i,
    {
        let mut at: usize = order.len();
        while at > 0 && keys[order[at - 1]] > keys[i]
            invariant
                at <= order@.len(),
                i < keys@.len(),
                forall|a: int| 0 <= a < order@.len() ==> 0 <= #[trigger] order@[a] < i,
                forall|b: int|
                    at <= b < order@.len() ==> keys@[(#[trigger] order@[b]) as int]
                        > keys@[i as int],
            decreases at,
        {
            at -= 1;
        }
        let ghost before = order@;
        order.insert(at, i);
        proof {
            assert forall|a: int| 0 <= a < order@.len() implies 0 <= #[trigger] order@[a] < i + 1 by {
                if a < at {
                    assert(order@[a] == before[a]);
                } else if a > at {
                    assert(order@[a] == before[a - 1]);
                }
            }
            assert forall|a: int, b: int| 0 <= a < b < order@.len() implies id_before(
                keys@,
                (#[trigger] order@[a]) as int,
                (#[trigger] order@[b]) as int,
            ) by {
                if b < at {
                    assert(order@[a] == before[a] && order@[b] == before[b]);
                } else if b == at {
                    assert(order@[a] == before[a]);
                    if a < at - 1 {
                        assert(id_before(keys@, before[a] as int, before[at - 1] as int));
                    }
                } else {
                    assert(order@[b] == before[b - 1]);
                    if a < at {
                        assert(order@[a] == before[a]);
                    } else if a > at {
                        assert(order@[a] == before[a - 1]);
                    }
                }
            }
        }
        i += 1;
    }
    assert(ascending_ids(keys@, positions(order@)));
    order
}

/// Whether one text comes before another or equals it, character by
/// character.
pub open spec fn text_le(a: Seq<char>, b: Seq<char>) -> bool
    decreases a.len(),
{
    if a.len() == 0 {
        true
    } else if b.len() == 0 {
        false
    } else if a[0] == b[0] {
        text_le(a.drop_first(), b.drop_first())
    } else {
        a[0] < b[0]
    }
}

proof fn lemma_text_total(a: Seq<char>, b: Seq<char>)
    ensures
        text_le(a, b) || text_le(b, a),
    decreases a.len(),
{
    if a.len() > 0 && b.len() > 0 && a[0] == b[0] {
        lemma_text_total(a.drop_first(), b.drop_first());
    }
}

proof fn lemma_text_transitive(a: Seq<char>, b: Seq<char>, c: Seq<char>)
    requires
        text_le(a, b),
        text_le(b, c),
    ensures
        text_le(a, c),
    decreases a.len(),
{
    if a.len() > 0 && b.len() > 0 && c.len() > 0 && a[0] == b[0] && b[0] == c[0] {
        lemma_text_transitive(a.drop_first(), b.drop_first(), c.drop_first());
    }
}

/// The order of texts tells different texts apart.
pub proof fn law_text_order_is_antisymmetric(a: Seq<char>, b: Seq<char>)
    requires
        text_le(a, b),
        text_le(b, a),
    ensures
        a == b,
    decreases a.len(),
{
    if a.len() > 0 && b.len() > 0 {
        law_text_order_is_antisymmetric(a.drop_first(), b.drop_first());
        assert(a =~= seq![a[0]] + a.drop_first());
        assert(b =~= seq![b[0]] + b.drop_first());
    } else {
        assert(a =~= b);
    }
}

/// Whether the name at `i` comes before the one at `j`.
pub open spec fn name_before(names: Seq<Seq<char>>, i: int, j: int) -> bool {
    text_le(names[i], names[j]) && (text_le(names[j], names[i]) ==> i < j)
}

/// Whether `order` lists the positions of all names in ascending order; equal
/// names keep their order.
pub open spec fn ascending_names(names: Seq<Seq<char>>, order: Seq<int>) -> bool {
    &&& order.len() == names.len()
    &&& forall|a: int| 0 <= a < order.len() ==> 0 <= #[trigger] order[a] < names.len()
    &&& forall|a: int, b: int|
        0 <= a < b < order.len() ==> name_before(names, #[trigger] order[a], #[trigger] order[b])
}

/// An ascending order leaves no name out.
pub proof fn lemma_names_covered(names: Seq<Seq<char>>, order: Seq<int>, x: int)
    requires
        ascending_names(names, order),
        0 <= x < names.len(),
    ensures
        order.contains(x),
{
    assert(order.no_duplicates()) by {
        assert forall|a: int, b: int|
            0 <= a < order.len() && 0 <= b < order.len() && a != b implies order[a]
            != order[b] by {
            if a < b {
                assert(name_before(names, order[a], order[b]));
            } else {
                assert(name_before(names, order[b], order[a]));
            }
        }
    }
    lemma_all_positions(order, names.len(), x);
}

/// Texts are ordered by their first difference: what they begin with in common
/// does not count, nothing comes before everything, and of two texts that
/// differ at once the one with the smaller character comes first.
pub proof fn law_first_difference_decides(common: Seq<char>, a: Seq<char>, b: Seq<char>)
    ensures
        text_le(common + a, common + b) == text_le(a, b),
        text_le(Seq::empty(), b),
        a.len() > 0 ==> !text_le(a, Seq::empty()),
        a.len() > 0 && b.len() > 0 && a[0] < b[0] ==> text_le(a, b) && !text_le(b, a),
    decreases common.len(),
{
    if common.len() == 0 {
        assert(common + a =~= a && common + b =~= b);
    } else {
        law_first_difference_decides(common.drop_first(), a, b);
        assert((common + a).drop_first() =~= common.drop_first() + a);
        assert((common + b).drop_first() =~= common.drop_first() + b);
    }
}

/// Whether `a` comes before `b` or equals it.
pub fn precedes(a: &str, b: &str) -> (r: bool)
    ensures
        r == text_le(a@, b@),
{
    let x = chars_of(a);
    let y = chars_of(b);
    let mut i: usize = 0;
    assert(a@.skip(0) =~= a@);
    assert(b@.skip(0) =~= b@);
    while i < x.len() && i < y.len()
        invariant
            i <= x@.len(),
            i <= y@.len(),
            x@ == a@,
            y@ == b@,
            text_le(a@, b@) == text_le(a@.skip(i as int), b@.skip(i as int)),
        decreases x@.len() - i,
    {
        if x[i] != y[i] {
            assert(a@.skip(i as int)[0] == x@[i as int]);
            assert(b@.skip(i as int)[0] == y@[i as int]);
            return x[i] < y[i];
        }
        assert(a@.skip(i as int).drop_first() =~= a@.skip(i + 1));
        assert(b@.skip(i as int).drop_first() =~= b@.skip(i + 1));
        i += 1;
    }
    i == x.len()
}

/// The positions of the names in ascending order.
pub fn order_names(names: &Vec<String>) -> (r: Vec<usize>)
    ensures
        ascending_names(views(names@), positions(r@)),
        r@.len() == names@.len(),
        forall|a: int| 0 <= a < r@.len() ==> (#[trigger] r@[a]) < names@.len(),
{
    let ghost keys = views(names@);
    let mut order: Vec<usize> = Vec::new();
    let mut i: usize = 0;
    while i < names.len()
        invariant
            i <= names@.len(),
            keys == views(names@),
            order@.len() == i,
            forall|a: int| 0 <= a < order@.len() ==> 0 <= #[trigger] order@[a] < i,
            forall|a: int, b: int|
                0 <= a < b < order@.len() ==> name_before(
                    keys,
                    (#[trigger] order@[a]) as int,
                    (#[trigger] order@[b]) as int,
                ),
        decreases names@.len() - i,
    {
        let mut at: usize = order.len();
        while at > 0 && !precedes(names[order[at - 1]].as_str(), names[i].as_str())
            invariant
                at <= order@.len(),
                i < names@.len(),
                keys == views(names@),
                forall|a: int| 0 <= a < order@.len() ==> 0 <= #[trigger] order@[a] < i,
                forall|b: int|
                    at <= b < order@.len() ==> !text_le(
                        keys[(#[trigger] order@[b]) as int],
                        keys[i as int],
                    ),
            decreases at,
        {
            assert(keys[order@[at - 1] as int] == names@[order@[at - 1] as int]@);
            at -= 1;
        }
        let ghost before = order@;
        assert(at > 0 ==> text_le(keys[before[at - 1] as int], keys[i as int]));
        order.insert(at, i);
        proof {
            assert forall|a: int| 0 <= a < order@.len() implies 0 <= #[trigger] order@[a] < i + 1 by {
                if a < at {
                    assert(order@[a] == before[a]);
                } else if a > at {
                    assert(order@[a] == before[a - 1]);
                }
            }
            assert forall|a: int, b: int| 0 <= a < b < order@.len() implies name_before(
                keys,
                (#[trigger] order@[a]) as int,
                (#[trigger] order@[b]) as int,
            ) by {
                if b < at {
                    assert(order@[a] == before[a] && order@[b] == before[b]);
                } else if b == at {
                    assert(order@[a] == before[a]);
                    if a < at - 1 {
                        assert(name_before(keys, before[a] as int, before[at - 1] as int));
                        lemma_text_transitive(
                            keys[before[a] as int],
                            keys[before[at - 1] as int],
                            keys[i as int],
                        );
                    }
                } else {
                    assert(order@[b] == before[b - 1]);
                    if a < at {
                        assert(order@[a] == before[a]);
                    } else if a > at {
                        assert(order@[a] == before[a - 1]);
                    } else {
                        lemma_text_total(keys[i as int], keys[before[b - 1] as int]);
                    }
                }
            }
        }
        i += 1;
    }
    assert(ascending_names(keys, positions(order@)));
    order
}

} // verus!
