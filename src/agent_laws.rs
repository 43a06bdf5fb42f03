//! Laws of the agents' choices.

use vstd::prelude::*;
use crate::agents::{destination_spec, NavAgentType, Steer, World};
use crate::geometry::Point;
use crate::graph::{neighbor_list, Junction};
use crate::session::{pool_spec, without};

verus! {

/// `without(s, p)` holds exactly the entries of `s` other than `p`.
pub proof fn lemma_without(s: Seq<usize>, p: usize)
    ensures
        forall|x: usize| #[trigger] without(s, p).contains(x) <==> (s.contains(x) && x != p),
    decreases s.len(),
{
    if s.len() > 0 {
        let init = s.drop_last();
        lemma_without(init, p);
        assert forall|x: usize| #[trigger] without(s, p).contains(x) <==> (s.contains(x) && x
            != p) by {
            let rest = without(init, p);
            assert(without(s, p) == if s.last() == p {
                rest
            } else {
                rest.push(s.last())
            });
            if s.contains(x) && x != p {
                let k = choose|k: int| 0 <= k < s.len() && s[k] == x;
                if k < s.len() - 1 {
                    assert(init[k] == x);
                    assert(init.contains(x));
                    assert(without(init, p).contains(x));
                    let m = choose|m: int| 0 <= m < rest.len() && rest[m] == x;
                    assert(without(s, p)[m] == x);
                } else {
                    assert(without(s, p)[rest.len() as int] == x);
                }
            }
            if without(s, p).contains(x) {
                let m = choose|m: int| 0 <= m < without(s, p).len() && without(s, p)[m] == x;
                if m < rest.len() {
                    assert(rest[m] == x);
                    assert(rest.contains(x));
                    let k = choose|k: int| 0 <= k < init.len() && init[k] == x;
                    assert(s[k] == x);
                } else {
                    assert(s[s.len() - 1] == x);
                }
            }
        }
    }
}

/// On arrival at `at`, the pool holds the neighbours of `at`, each once;
/// for every behaviour but the player's, when `at` has more than one
/// neighbour, the junction the agent came from is left out and every other
/// neighbour stays.
pub proof fn lemma_pool_is_neighbors_less_backtrack(
    t: Seq<Option<usize>>,
    at: int,
    previous: Option<usize>,
    kind: NavAgentType,
)
    ensures
        ({
            let n = neighbor_list(t, at);
            let pool = pool_spec(t, at, previous, kind);
            if kind != NavAgentType::Player && n.len() > 1 && previous is Some {
                forall|x: usize| #[trigger] pool.contains(x) <==> (n.contains(x) && x
                    != previous->Some_0)
            } else {
                pool == n
            }
        }),
{
    if let Some(p) = previous {
        lemma_without(neighbor_list(t, at), p);
    }
}

/// Shadow's choice depends on the pool, the junctions and the player's
/// position alone: not on its own position, the input, its current target,
/// nor anything else of the world.
pub proof fn lemma_shadow_choice_is_pure(
    pool: Seq<usize>,
    nodes: Seq<Junction>,
    w1: World,
    w2: World,
    me1: Point,
    me2: Point,
    current1: Option<usize>,
    current2: Option<usize>,
    input1: Steer,
    input2: Steer,
)
    requires
        w1.player_position == w2.player_position,
    ensures
        destination_spec(NavAgentType::Shadow, pool, nodes, w1, me1, current1, input1)
            == destination_spec(NavAgentType::Shadow, pool, nodes, w2, me2, current2, input2),
{
}

/// Fearful's choice depends on the pool, the junctions and the player's
/// position alone: not on its own position, the input, its current target,
/// nor anything else of the world.
pub proof fn lemma_fearful_choice_is_pure(
    pool: Seq<usize>,
    nodes: Seq<Junction>,
    w1: World,
    w2: World,
    me1: Point,
    me2: Point,
    current1: Option<usize>,
    current2: Option<usize>,
    input1: Steer,
    input2: Steer,
)
    requires
        w1.player_position == w2.player_position,
    ensures
        destination_spec(NavAgentType::Fearful, pool, nodes, w1, me1, current1, input1)
            == destination_spec(NavAgentType::Fearful, pool, nodes, w2, me2, current2, input2),
{
}

} // verus!
