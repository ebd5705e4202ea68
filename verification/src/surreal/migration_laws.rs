//! Which migrations are run, in terms of the files and of what was run.

use vstd::prelude::*;

use crate::order::{ascending_names, lemma_names_covered, name_before, text_le};
use crate::surreal::migrations::{
    is_migration, is_pending, migrations_dir_under, names_in_order, pending_of,
};
use crate::text::split_last;
use crate::text_laws::law_split_at_the_last_mark;

verus! {

/// A file is a migration exactly if its name is a stem with the extension
/// `surql`.
pub proof fn law_migration_has_the_extension(name: Seq<char>, stem: Seq<char>)
    ensures
        is_migration(name) ==> (".surql"@).is_suffix_of(name) && name.len() > ".surql"@.len(),
        stem.len() > 0 ==> is_migration(stem + ".surql"@),
{
    reveal_strlit(".surql");
    reveal_strlit("surql");
    let dotted = "surql"@;
    law_split_at_the_last_mark(name, '.');
    if is_migration(name) {
        let (before, after) = split_last(name, '.')->0;
        assert(name =~= before + ".surql"@);
        assert(name.subrange(name.len() - 6, name.len() as int) =~= ".surql"@);
    }
    let whole = stem + ".surql"@;
    law_split_at_the_last_mark(whole, '.');
    assert(whole[stem.len() as int] == '.');
    assert(whole.contains('.'));
    let (before, after) = split_last(whole, '.')->0;
    let at = before.len() as int;
    assert(whole[at] == '.') by {
        assert((before.push('.') + after)[at] == '.');
    }
    if at < stem.len() {
        let j = stem.len() - at - 1;
        assert(after[j] == (before.push('.') + after)[at + 1 + j]);
        assert(after[j] == '.');
    } else if at > stem.len() {
        assert(whole[at] == dotted[at - stem.len() - 1]);
    }
    assert(before =~= whole.take(at) && after =~= whole.skip(at + 1)) by {
        assert(whole == before.push('.') + after);
    }
    assert(before =~= stem);
    assert(after =~= dotted);
}

proof fn lemma_filter(names: Seq<Seq<char>>, p: spec_fn(Seq<char>) -> bool, name: Seq<char>)
    ensures
        names.filter(p).contains(name) <==> names.contains(name) && p(name),
    decreases names.len(),
{
    reveal(Seq::filter);
    if names.len() > 0 {
        let front = names.drop_last();
        lemma_filter(front, p, name);
        if names.contains(name) && p(name) {
            let k = choose|k: int| 0 <= k < names.len() && names[k] == name;
            if k < front.len() {
                assert(front[k] == name);
                let j = choose|j: int|
                    0 <= j < front.filter(p).len() && front.filter(p)[j] == name;
                assert(names.filter(p)[j] == name);
            } else {
                assert(names.filter(p).last() == name);
            }
        }
        if names.filter(p).contains(name) {
            let j = choose|j: int| 0 <= j < names.filter(p).len() && names.filter(p)[j] == name;
            if j < front.filter(p).len() {
                assert(front.filter(p)[j] == name);
                let k = choose|k: int| 0 <= k < front.len() && front[k] == name;
                assert(names[k] == name);
            } else {
                assert(names[names.len() - 1] == name);
            }
        }
    }
}

/// The migrations to run are exactly the migrations among the files that were
/// not run before, in ascending order of their names.
pub proof fn law_pending_migrations_are_run_in_order(
    names: Seq<Seq<char>>,
    applied: Seq<Seq<char>>,
    run: Seq<Seq<char>>,
)
    requires
        names_in_order(pending_of(names, applied), run),
    ensures
        forall|name: Seq<char>| #[trigger]
            run.contains(name) <==> names.contains(name) && is_migration(name)
                && !applied.contains(name),
        forall|a: int, b: int|
            0 <= a < b < run.len() ==> text_le(#[trigger] run[a], #[trigger] run[b]),
{
    let pending = pending_of(names, applied);
    let order = choose|order: Seq<int>| #[trigger]
        ascending_names(pending, order) && run.len() == pending.len() && forall|a: int|
            0 <= a < run.len() ==> run[a] == pending[#[trigger] order[a]];
    assert forall|name: Seq<char>| #[trigger] run.contains(name) <==> names.contains(name)
        && is_migration(name) && !applied.contains(name) by {
        let p = |name: Seq<char>| is_pending(name, applied);
        lemma_filter(names, p, name);
        if run.contains(name) {
            let a = choose|a: int| 0 <= a < run.len() && run[a] == name;
            assert(pending[order[a]] == name);
        }
        if pending.contains(name) {
            let x = choose|x: int| 0 <= x < pending.len() && pending[x] == name;
            lemma_names_covered(pending, order, x);
            let a = choose|a: int| 0 <= a < order.len() && order[a] == x;
            assert(run[a] == pending[order[a]]);
        }
    }
    assert forall|a: int, b: int| 0 <= a < b < run.len() implies text_le(
        #[trigger] run[a],
        #[trigger] run[b],
    ) by {
        assert(name_before(pending, order[a], order[b]));
        assert(run[a] == pending[order[a]] && run[b] == pending[order[b]]);
    }
}

/// The migrations lie in their directory under the base, with one slash
/// between the two.
pub proof fn law_migrations_lie_under_the_base(base: Seq<char>)
    requires
        base.len() > 0,
        base.last() != '/',
    ensures
        migrations_dir_under(base) == base + "/migrations"@,
        migrations_dir_under(base.push('/')) == base + "/migrations"@,
        migrations_dir_under(Seq::empty()) == "migrations"@,
{
    reveal_strlit("/migrations");
    reveal_strlit("migrations");
    assert(base.push('/') + "migrations"@ =~= base + "/migrations"@);
}

} // verus!
