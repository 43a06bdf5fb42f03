//! Laws of the junction graph that hold across its operations.

use vstd::prelude::*;
use crate::graph::{
    adjacent, id_after_removal, index_after_removal, index_before_removal, table_removed,
    table_wf, JunctionGraph,
};
use crate::slots::{junction_of_spec, lemma_block_bounds, MAX_SLOTS};

verus! {

/// In every well-formed graph, and so after any sequence of `connect`,
/// `disconnect_all` and `remove_junction` (each keeps the graph
/// well-formed), a slot `a` linked to `b` is linked back from `b`, and `a`
/// and `b` belong to different junctions.
pub proof fn lemma_links_symmetric(g: &JunctionGraph, a: int)
    requires
        g.wf(),
        0 <= a < g.table().len(),
        g.table()[a] is Some,
    ensures
        0 <= g.table()[a]->Some_0 < g.table().len(),
        g.table()[g.table()[a]->Some_0 as int] == Some(a as usize),
        junction_of_spec(a) != junction_of_spec(g.table()[a]->Some_0 as int),
{
}

/// Taking junction `x` out of a well-formed table leaves no slot that refers
/// to `x`: every link that remains is a link of the old table between two
/// other junctions, moved to the new numbering, and every slot that was
/// linked into `x` is now empty.
pub proof fn lemma_removal_drops_references(t: Seq<Option<usize>>, x: int)
    requires
        table_wf(t),
        t.len() <= usize::MAX,
        0 <= x,
        (x + 1) * MAX_SLOTS as int <= t.len(),
    ensures
        forall|i: int|
            0 <= i < table_removed(t, x).len() && #[trigger] table_removed(t, x)[i] is Some ==> {
                let v = t[index_before_removal(i, x)];
                &&& v is Some
                &&& junction_of_spec(v->Some_0 as int) != x
                &&& table_removed(t, x)[i]->Some_0 as int == index_after_removal(v->Some_0 as int, x)
            },
        forall|a: int|
            0 <= a < t.len() && junction_of_spec(a) != x && #[trigger] t[a] is Some
                && junction_of_spec(t[a]->Some_0 as int) == x ==> table_removed(t, x)[index_after_removal(a, x)] is None,
{
    let r = table_removed(t, x);
    assert forall|a: int|
        0 <= a < t.len() && junction_of_spec(a) != x && #[trigger] t[a] is Some && junction_of_spec(
            t[a]->Some_0 as int,
        ) == x implies r[index_after_removal(a, x)] is None by {
        lemma_block_bounds(a, x);
        assert(index_before_removal(index_after_removal(a, x), x) == a);
    }
}

/// Taking junction `x` out changes no other adjacency: for junctions `j` and
/// `n` other than `x`, `n` is one hop from `j` before the removal exactly
/// when, in the new numbering, `n` is one hop from `j` after it. With the
/// previous law, the neighbours of every remaining junction are the same set
/// as before, less `x`.
pub proof fn lemma_removal_keeps_adjacency(t: Seq<Option<usize>>, x: int, j: int, n: int)
    requires
        table_wf(t),
        t.len() <= usize::MAX,
        0 <= x,
        (x + 1) * MAX_SLOTS as int <= t.len(),
        0 <= j,
        (j + 1) * MAX_SLOTS as int <= t.len(),
        0 <= n,
        j != x,
        n != x,
    ensures
        adjacent(t, j, n) <==> adjacent(
            table_removed(t, x),
            id_after_removal(j, x),
            id_after_removal(n, x),
        ),
{
    let r = table_removed(t, x);
    let jr = id_after_removal(j, x);
    let nr = id_after_removal(n, x);
    assert forall|s: int| 0 <= s < MAX_SLOTS as int implies (#[trigger] t[j * MAX_SLOTS as int
        + s] is Some && junction_of_spec(t[j * MAX_SLOTS as int + s]->Some_0 as int) == n) <==> (
    r[jr * MAX_SLOTS as int + s] is Some && junction_of_spec(
        r[jr * MAX_SLOTS as int + s]->Some_0 as int,
    ) == nr) by {
        let i = jr * MAX_SLOTS as int + s;
        lemma_block_bounds(i, x);
        lemma_block_bounds(i, jr);
        assert(index_before_removal(i, x) == j * MAX_SLOTS as int + s);
        let o = t[j * MAX_SLOTS as int + s];
        if o is Some {
            let v = o->Some_0 as int;
            let vj = junction_of_spec(v);
            lemma_block_bounds(v, x);
            lemma_block_bounds(v, vj);
            if vj != x {
                let w = index_after_removal(v, x);
                lemma_block_bounds(w, id_after_removal(vj, x));
                assert(junction_of_spec(w) == id_after_removal(vj, x));
            }
        }
    }
    if adjacent(t, j, n) {
        let s = choose|s: int|
            0 <= s < MAX_SLOTS as int && #[trigger] t[j * MAX_SLOTS as int + s] is Some
                && junction_of_spec(t[j * MAX_SLOTS as int + s]->Some_0 as int) == n;
        assert(t[j * MAX_SLOTS as int + s] is Some);
        assert(r[jr * MAX_SLOTS as int + s] is Some);
    }
    if adjacent(r, jr, nr) {
        let s = choose|s: int|
            0 <= s < MAX_SLOTS as int && #[trigger] r[jr * MAX_SLOTS as int + s] is Some
                && junction_of_spec(r[jr * MAX_SLOTS as int + s]->Some_0 as int) == nr;
        assert(t[j * MAX_SLOTS as int + s] is Some);
    }
}

} // verus!
