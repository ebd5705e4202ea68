//! Which migrations are still to be run, and in which order.

use vstd::prelude::*;
use vstd::string::*;

use crate::order::{ascending_names, order_names, positions};
use crate::text::{rsplit_once, same, split_last, views};

verus! {

/// Whether a file name is that of a migration: its extension is `surql`.
pub open spec fn is_migration(name: Seq<char>) -> bool {
    match split_last(name, '.') {
        Some((stem, extension)) => stem.len() > 0 && extension == "surql"@,
        None => false,
    }
}

pub fn is_migration_name(name: &str) -> (r: bool)
    ensures
        r == is_migration(name@),
{
    match rsplit_once(name, '.') {
        Some((stem, extension)) => !stem.as_str().is_empty() && same(extension.as_str(), "surql"),
        None => false,
    }
}

/// Whether a migration is still to be run.
pub open spec fn is_pending(name: Seq<char>, applied: Seq<Seq<char>>) -> bool {
    is_migration(name) && !applied.contains(name)
}

/// The migrations among some files that are still to be run, in the order of
/// the files.
pub open spec fn pending_of(names: Seq<Seq<char>>, applied: Seq<Seq<char>>) -> Seq<Seq<char>> {
    names.filter(|name: Seq<char>| is_pending(name, applied))
}

/// Whether `sorted` are the names, in ascending order.
pub open spec fn names_in_order(names: Seq<Seq<char>>, sorted: Seq<Seq<char>>) -> bool {
    exists|order: Seq<int>| #[trigger]
        ascending_names(names, order) && sorted.len() == names.len() && forall|a: int|
            0 <= a < sorted.len() ==> sorted[a] == names[#[trigger] order[a]]
}

fn applied_already(name: &str, applied: &Vec<String>) -> (r: bool)
    ensures
        r == views(applied@).contains(name@),
{
    let mut i: usize = 0;
    while i < applied.len()
        invariant
            i <= applied@.len(),
            forall|k: int| 0 <= k < i ==> (#[trigger] views(applied@)[k]) != name@,
        decreases applied@.len() - i,
    {
        if same(applied[i].as_str(), name) {
            assert(views(applied@)[i as int] == name@);
            return true;
        }
        i += 1;
    }
    false
}

/// The migrations to run, given the names of the files in the directory and
/// of the migrations that were run before: in ascending order of their names.
pub fn pending_migrations(names: &Vec<String>, applied: &Vec<String>) -> (r: Vec<String>)
    ensures
        names_in_order(pending_of(views(names@), views(applied@)), views(r@)),
{
    let ghost all = views(names@);
    let ghost done = views(applied@);
    let ghost open_ones = |name: Seq<char>| is_pending(name, done);
    let mut pending: Vec<String> = Vec::new();
    let mut i: usize = 0;
    while i < names.len()
        invariant
            i <= names@.len(),
            all == views(names@),
            done == views(applied@),
            open_ones == |name: Seq<char>| is_pending(name, done),
            views(pending@) == all.take(i as int).filter(open_ones),
        decreases names@.len() - i,
    {
        proof {
            reveal(Seq::filter);
            let next = all.take(i + 1);
            assert(next.drop_last() =~= all.take(i as int));
            assert(next.last() == names@[i as int]@);
        }
        if is_migration_name(names[i].as_str()) && !applied_already(names[i].as_str(), applied) {
            let ghost before = views(pending@);
            pending.push(names[i].clone());
            assert(views(pending@) =~= before.push(names@[i as int]@));
        }
        i += 1;
    }
    assert(all.take(i as int) =~= all);
    let order = order_names(&pending);
    let mut r: Vec<String> = Vec::new();
    let mut a: usize = 0;
    while a < order.len()
        invariant
            a <= order@.len(),
            order@.len() == pending@.len(),
            forall|b: int| 0 <= b < order@.len() ==> (#[trigger] order@[b]) < pending@.len(),
            r@.len() == a,
            forall|b: int|
                0 <= b < a ==> (#[trigger] r@[b])@ == views(pending@)[positions(order@)[b]],
        decreases order@.len() - a,
    {
        assert(positions(order@)[a as int] == order@[a as int]);
        r.push(pending[order[a]].clone());
        a += 1;
    }
    assert(ascending_names(views(pending@), positions(order@)));
    assert(views(r@).len() == views(pending@).len());
    assert forall|b: int| 0 <= b < views(r@).len() implies views(r@)[b]
        == views(pending@)[#[trigger] positions(order@)[b]] by {
        assert(r@[b]@ == views(pending@)[positions(order@)[b]]);
    }
    r
}

/// Running the pending migrations leaves none to be run: once every one of
/// them is recorded, nothing is pending.
pub proof fn law_migrating_twice_does_nothing(names: Seq<Seq<char>>, applied: Seq<Seq<char>>)
    ensures
        pending_of(names, applied + pending_of(names, applied)).len() == 0,
{
    let first = |name: Seq<char>| is_pending(name, applied);
    let after = applied + pending_of(names, applied);
    let second = |name: Seq<char>| is_pending(name, after);
    assert forall|i: int| 0 <= i < names.len() implies !second(#[trigger] names[i]) by {
        if is_migration(names[i]) {
            if applied.contains(names[i]) {
                let k = choose|k: int| 0 <= k < applied.len() && applied[k] == names[i];
                assert(after[k] == names[i]);
            } else {
                lemma_filter_has(names, first, i);
                let k = choose|k: int|
                    0 <= k < names.filter(first).len() && names.filter(first)[k] == names[i];
                assert(after[applied.len() + k] == names[i]);
            }
        }
    }
    lemma_filter_none(names, second);
}

proof fn lemma_filter_has(names: Seq<Seq<char>>, p: spec_fn(Seq<char>) -> bool, i: int)
    requires
        0 <= i < names.len(),
        p(names[i]),
    ensures
        names.filter(p).contains(names[i]),
    decreases names.len(),
{
    reveal(Seq::filter);
    let front = names.drop_last();
    if i < front.len() {
        lemma_filter_has(front, p, i);
        let k = choose|k: int| 0 <= k < front.filter(p).len() && front.filter(p)[k] == names[i];
        assert(names.filter(p)[k] == names[i]);
    } else {
        assert(names.filter(p).last() == names[i]);
    }
}

proof fn lemma_filter_none(names: Seq<Seq<char>>, p: spec_fn(Seq<char>) -> bool)
    requires
        forall|i: int| 0 <= i < names.len() ==> !p(#[trigger] names[i]),
    ensures
        names.filter(p).len() == 0,
    decreases names.len(),
{
    reveal(Seq::filter);
    if names.len() > 0 {
        let front = names.drop_last();
        assert forall|i: int| 0 <= i < front.len() implies !p(#[trigger] front[i]) by {
            assert(front[i] == names[i]);
        }
        lemma_filter_none(front, p);
        assert(!p(names[names.len() - 1]));
    }
}

/// The directory of the migrations under a base directory.
pub open spec fn migrations_dir_under(base: Seq<char>) -> Seq<char> {
    if base.len() == 0 {
        "migrations"@
    } else if base.last() == '/' {
        base + "migrations"@
    } else {
        base + "/migrations"@
    }
}

/// The directory of the migrations under a base directory.
pub fn default_migrations_dir(base: &str) -> (r: String)
    ensures
        r@ == migrations_dir_under(base@),
{
    let chars = crate::text::chars_of(base);
    let mut r = base.to_owned();
    if chars.len() > 0 && chars[chars.len() - 1] != '/' {
        r.append("/");
        r.append("migrations");
        proof {
            reveal_strlit("/");
            reveal_strlit("migrations");
            reveal_strlit("/migrations");
            assert("/"@ + "migrations"@ =~= "/migrations"@);
            assert(base@ + "/"@ + "migrations"@ =~= base@ + ("/"@ + "migrations"@));
        }
    } else {
        r.append("migrations");
        assert(base@.len() == 0 ==> base@ + "migrations"@ =~= "migrations"@);
    }
    r
}

} // verus!
