//! A play session: spawning agents on a finished graph, and the tick that
//! moves them and, on arrival, has each pick its next junction.

use vstd::prelude::*;
use crate::agents::{choose_destination, destination_spec, NavAgent, NavAgentType, Steer, World};
use crate::geometry::{dist_sq, lands_at, move_towards, point_distance_sq, Point};
use crate::graph::{neighbor_list, Junction, JunctionGraph, JunctionType};

verus! {

/// An agent closer than this (squared, in world units) to its target has
/// reached it.
pub const ARRIVAL_DISTANCE_SQ: i128 = 32;

/// How fast agents travel, in world units per second.
pub const SPEED: u64 = 250;

/// `s` with every occurrence of `p` taken out, order kept.
pub open spec fn without(s: Seq<usize>, p: usize) -> Seq<usize>
    decreases s.len(),
{
    if s.len() == 0 {
        s
    } else {
        let rest = without(s.drop_last(), p);
        if s.last() == p {
            rest
        } else {
            rest.push(s.last())
        }
    }
}

/// The candidates of an agent of behaviour `kind` that has just reached
/// junction `at`, coming from `previous`: the neighbours of `at`, less
/// `previous` for every behaviour but the player's when other neighbours
/// remain to choose from.
pub open spec fn pool_spec(
    t: Seq<Option<usize>>,
    at: int,
    previous: Option<usize>,
    kind: NavAgentType,
) -> Seq<usize> {
    let n = neighbor_list(t, at);
    match previous {
        Some(p) => if kind != NavAgentType::Player && n.len() > 1 {
            without(n, p)
        } else {
            n
        },
        None => n,
    }
}

/// `v` with every occurrence of `p` taken out, order kept.
pub fn drop_junction(v: &Vec<usize>, p: usize) -> (r: Vec<usize>)
    ensures
        r@ == without(v@, p),
        forall|k: int| 0 <= k < r@.len() ==> v@.contains(#[trigger] r@[k]),
{
    let mut out: Vec<usize> = Vec::new();
    let mut i: usize = 0;
    while i < v.len()
        invariant
            i <= v@.len(),
            out@ == without(v@.take(i as int), p),
            forall|k: int| 0 <= k < out@.len() ==> v@.contains(#[trigger] out@[k]),
        decreases v@.len() - i,
    {
        assert(v@.take(i + 1).drop_last() =~= v@.take(i as int));
        if v[i] != p {
            assert(v@[i as int] == v[i as int]);
            out.push(v[i]);
        }
        i += 1;
    }
    assert(v@.take(v@.len() as int) =~= v@);
    out
}

/// The candidates of an agent of behaviour `kind` that has just reached
/// junction `at`, coming from `previous`.
pub fn pool_for(graph: &JunctionGraph, at: usize, previous: Option<usize>, kind: NavAgentType) -> (r:
    Vec<usize>)
    requires
        graph.wf(),
        at < graph.nodes().len(),
    ensures
        r@ == pool_spec(graph.table(), at as int, previous, kind),
        forall|k: int| 0 <= k < r@.len() ==> #[trigger] r@[k] < graph.nodes().len(),
{
    let near = graph.neighbors(at);
    match previous {
        Some(p) => if kind != NavAgentType::Player && near.len() > 1 {
            let r = drop_junction(&near, p);
            assert forall|k: int| 0 <= k < r@.len() implies #[trigger] r@[k] < graph.nodes().len() by {
                assert(near@.contains(r@[k]));
            }
            r
        } else {
            near
        },
        None => near,
    }
}

/// Whether an agent at `p` has reached junction `j`.
pub open spec fn has_arrived(nodes: Seq<Junction>, j: int, p: Point) -> bool {
    dist_sq(p.x as int, p.y as int, nodes[j].0.x as int, nodes[j].0.y as int) < ARRIVAL_DISTANCE_SQ
}

/// How far an agent travels in `elapsed_ms` milliseconds.
pub open spec fn step_spec(elapsed_ms: int) -> int {
    SPEED * elapsed_ms / 1000
}

/// The agent `after` is `before` once it has reached junction `at`: its pool
/// is recomputed afresh from `at` and it has picked its next target from it.
pub open spec fn arrived_at(
    before: NavAgent,
    after: NavAgent,
    graph: JunctionGraph,
    at: int,
    world: World,
    input: Steer,
) -> bool {
    let kind = before.behaviour_spec();
    &&& after.junction_pool@ == pool_spec(graph.table(), at, before.junction_previous, kind)
    &&& after.junction_target == destination_spec(
        kind,
        after.junction_pool@,
        graph.nodes(),
        world,
        before.position,
        Some(at as usize),
        input,
    )
    &&& after.junction_previous == Some(at as usize)
    &&& after.position == before.position
    &&& after.type_base == before.type_base
    &&& after.type_modified == before.type_modified
}

/// The agent `after` is `before` advanced by one tick of `elapsed_ms`
/// milliseconds: with no target it stays; with a target that is no junction
/// it stops; close to its target it arrives there; else it moves towards
/// its target.
pub open spec fn advanced(
    before: NavAgent,
    after: NavAgent,
    graph: JunctionGraph,
    world: World,
    elapsed_ms: int,
    input: Steer,
) -> bool {
    match before.junction_target {
        None => after == before,
        Some(j) => if j >= graph.nodes().len() {
            &&& after.junction_target is None
            &&& after.position == before.position
            &&& after.junction_previous == before.junction_previous
            &&& after.junction_pool == before.junction_pool
            &&& after.type_base == before.type_base
            &&& after.type_modified == before.type_modified
        } else if has_arrived(graph.nodes(), j as int, before.position) {
            arrived_at(before, after, graph, j as int, world, input)
        } else {
            let to = graph.nodes()[j as int].0;
            &&& exists|d: int| lands_at(after.position, before.position, to, step_spec(elapsed_ms), d)
            &&& after.junction_target == before.junction_target
            &&& after.junction_previous == before.junction_previous
            &&& after.junction_pool == before.junction_pool
            &&& after.type_base == before.type_base
            &&& after.type_modified == before.type_modified
        }
    }
}

/// The agent has reached its target junction: it recomputes its pool and
/// picks its next target.
pub fn arrive(agent: &mut NavAgent, graph: &JunctionGraph, world: &World, input: Steer)
    requires
        graph.wf(),
        old(agent).junction_target matches Some(at) && at < graph.nodes().len(),
    ensures
        arrived_at(
            *old(agent),
            *final(agent),
            *graph,
            old(agent).junction_target->Some_0 as int,
            *world,
            input,
        ),
{
    let at = agent.junction_target.unwrap();
    let kind = agent.behaviour();
    let pool = pool_for(graph, at, agent.junction_previous, kind);
    let next = choose_destination(kind, &pool, graph, world, agent.position, Some(at), input);
    agent.junction_pool = pool;
    agent.junction_target = next;
    agent.junction_previous = Some(at);
}

/// Advances one agent by a tick of `elapsed_ms` milliseconds. Arrival is
/// tested before any move, so an agent never moves past its target.
pub fn advance_agent(
    agent: &mut NavAgent,
    graph: &JunctionGraph,
    world: &World,
    elapsed_ms: u32,
    input: Steer,
)
    requires
        graph.wf(),
    ensures
        advanced(*old(agent), *final(agent), *graph, *world, elapsed_ms as int, input),
{
    match agent.junction_target {
        None => {},
        Some(j) => {
            if j >= graph.junction_count() {
                agent.junction_target = None;
            } else {
                let to = graph.junction(j).0;
                if point_distance_sq(agent.position, to) < ARRIVAL_DISTANCE_SQ {
                    arrive(agent, graph, world, input);
                } else {
                    assert(SPEED * elapsed_ms / 1000 <= u32::MAX) by (nonlinear_arith)
                        requires
                            elapsed_ms <= u32::MAX,
                    ;
                    let step = (SPEED * elapsed_ms as u64 / 1000) as u32;
                    assert(step as int == step_spec(elapsed_ms as int));
                    let from = agent.position;
                    agent.position = move_towards(from, to, step);
                    let ghost d = choose|d: int| lands_at(agent.position, from, to, step as int, d);
                    assert(lands_at(agent.position, from, to, step_spec(elapsed_ms as int), d));
                }
            }
        },
    }
}

/// The first agent, from `i` on, whose behaviour is `kind`.
pub open spec fn find_kind(agents: Seq<NavAgent>, kind: NavAgentType, i: int) -> Option<int>
    decreases agents.len() - i,
{
    if i < 0 || i >= agents.len() {
        None
    } else if agents[i].behaviour_spec() == kind {
        Some(i)
    } else {
        find_kind(agents, kind, i + 1)
    }
}

/// What the agents may read of one another: the position and target of the
/// first player agent and of the first Shadow.
pub open spec fn world_spec(agents: Seq<NavAgent>) -> World {
    let p = find_kind(agents, NavAgentType::Player, 0);
    let s = find_kind(agents, NavAgentType::Shadow, 0);
    World {
        player_position: match p {
            Some(i) => Some(agents[i].position),
            None => None,
        },
        player_target: match p {
            Some(i) => agents[i].junction_target,
            None => None,
        },
        shadow_position: match s {
            Some(i) => Some(agents[i].position),
            None => None,
        },
        shadow_target: match s {
            Some(i) => agents[i].junction_target,
            None => None,
        },
    }
}

/// Where in `agents` the first one of behaviour `kind` stands.
pub fn find_agent(agents: &Vec<NavAgent>, kind: NavAgentType) -> (r: Option<usize>)
    ensures
        r is None <==> find_kind(agents@, kind, 0) is None,
        r matches Some(i) ==> i < agents@.len() && find_kind(agents@, kind, 0) == Some(i as int),
{
    let mut i: usize = 0;
    while i < agents.len()
        invariant
            i <= agents@.len(),
            find_kind(agents@, kind, 0) == find_kind(agents@, kind, i as int),
        decreases agents@.len() - i,
    {
        if agents[i].behaviour() == kind {
            return Some(i);
        }
        i += 1;
    }
    None
}

/// What the agents may read of one another at this moment.
pub fn observe(agents: &Vec<NavAgent>) -> (r: World)
    ensures
        r == world_spec(agents@),
{
    let p = find_agent(agents, NavAgentType::Player);
    let s = find_agent(agents, NavAgentType::Shadow);
    World {
        player_position: match p {
            Some(i) => Some(agents[i].position),
            None => None,
        },
        player_target: match p {
            Some(i) => agents[i].junction_target,
            None => None,
        },
        shadow_position: match s {
            Some(i) => Some(agents[i].position),
            None => None,
        },
        shadow_target: match s {
            Some(i) => agents[i].junction_target,
            None => None,
        },
    }
}

/// One tick of `elapsed_ms` milliseconds. Every agent reads the others as
/// they stood when the tick began, so the order of the agents does not
/// matter.
pub fn advance(agents: &mut Vec<NavAgent>, graph: &JunctionGraph, elapsed_ms: u32, input: Steer)
    requires
        graph.wf(),
    ensures
        final(agents)@.len() == old(agents)@.len(),
        forall|i: int|
            0 <= i < old(agents)@.len() ==> advanced(
                #[trigger] old(agents)@[i],
                final(agents)@[i],
                *graph,
                world_spec(old(agents)@),
                elapsed_ms as int,
                input,
            ),
{
    let world = observe(agents);
    let ghost start = agents@;
    let mut i: usize = 0;
    while i < agents.len()
        invariant
            graph.wf(),
            world == world_spec(start),
            agents@.len() == start.len(),
            i <= start.len(),
            forall|k: int|
                0 <= k < i ==> advanced(
                    #[trigger] start[k],
                    agents@[k],
                    *graph,
                    world,
                    elapsed_ms as int,
                    input,
                ),
            forall|k: int| i <= k < start.len() ==> #[trigger] agents@[k] == start[k],
        decreases start.len() - i,
    {
        advance_agent(&mut agents[i], graph, &world, elapsed_ms, input);
        i += 1;
    }
}

/// Some junction before `j` is a bonus junction.
pub open spec fn bonus_before(nodes: Seq<Junction>, j: int) -> bool {
    exists|k: int| 0 <= k < j && #[trigger] nodes[k].1 == JunctionType::BonusItem
}

/// The agents a session starts with, as behaviour and junction, for the
/// first `n` junctions: four ghosts (Shadow, Sneaky, Moody, Pokey) on every
/// spawn area; the player on the first bonus junction and a fleeing bonus
/// agent on every later one.
pub open spec fn roster(nodes: Seq<Junction>, n: int) -> Seq<(NavAgentType, usize)>
    decreases n,
{
    if n <= 0 {
        Seq::empty()
    } else {
        let r = roster(nodes, n - 1);
        let j = (n - 1) as usize;
        match nodes[n - 1].1 {
            JunctionType::SpawnArea => r + seq![
                (NavAgentType::Shadow, j),
                (NavAgentType::Sneaky, j),
                (NavAgentType::Moody, j),
                (NavAgentType::Pokey, j),
            ],
            JunctionType::BonusItem => r.push(
                (
                    if bonus_before(nodes, n - 1) {
                        NavAgentType::Fearful
                    } else {
                        NavAgentType::Player
                    },
                    j,
                ),
            ),
            _ => r,
        }
    }
}

/// `a` is a fresh agent of behaviour `e.0` standing on junction `e.1`.
pub open spec fn spawned_as(a: NavAgent, e: (NavAgentType, usize), nodes: Seq<Junction>) -> bool {
    &&& a.type_base == e.0
    &&& a.type_modified is None
    &&& a.junction_target == Some(e.1)
    &&& a.junction_previous is None
    &&& a.junction_pool@.len() == 0
    &&& a.position == nodes[e.1 as int].0
}

/// The agents a session on `graph` starts with, in junction order.
pub fn spawn_agents(graph: &JunctionGraph) -> (r: Vec<NavAgent>)
    ensures
        r@.len() == roster(graph.nodes(), graph.nodes().len() as int).len(),
        forall|k: int|
            0 <= k < r@.len() ==> spawned_as(
                #[trigger] r@[k],
                roster(graph.nodes(), graph.nodes().len() as int)[k],
                graph.nodes(),
            ),
{
    let ghost nodes = graph.nodes();
    let mut agents: Vec<NavAgent> = Vec::new();
    let mut placed = false;
    let mut i: usize = 0;
    while i < graph.junction_count()
        invariant
            nodes == graph.nodes(),
            i <= nodes.len(),
            placed == bonus_before(nodes, i as int),
            agents@.len() == roster(nodes, i as int).len(),
            forall|k: int|
                0 <= k < agents@.len() ==> spawned_as(
                    #[trigger] agents@[k],
                    roster(nodes, i as int)[k],
                    nodes,
                ),
        decreases nodes.len() - i,
    {
        let Junction(at, kind) = graph.junction(i);
        let ghost before = roster(nodes, i as int);
        match kind {
            JunctionType::SpawnArea => {
                agents.push(NavAgent::new(NavAgentType::Shadow, i, at));
                agents.push(NavAgent::new(NavAgentType::Sneaky, i, at));
                agents.push(NavAgent::new(NavAgentType::Moody, i, at));
                agents.push(NavAgent::new(NavAgentType::Pokey, i, at));
            },
            JunctionType::BonusItem => {
                let who = if placed {
                    NavAgentType::Fearful
                } else {
                    NavAgentType::Player
                };
                agents.push(NavAgent::new(who, i, at));
                placed = true;
            },
            _ => {},
        }
        assert(bonus_before(nodes, i + 1) == (bonus_before(nodes, i as int) || kind
            == JunctionType::BonusItem)) by {
            if bonus_before(nodes, i + 1) {
                let k = choose|k: int| 0 <= k < i + 1 && #[trigger] nodes[k].1 == JunctionType::BonusItem;
                if k < i {
                    assert(bonus_before(nodes, i as int));
                }
            }
            if bonus_before(nodes, i as int) {
                let k = choose|k: int| 0 <= k < i && #[trigger] nodes[k].1 == JunctionType::BonusItem;
                assert(nodes[k].1 == JunctionType::BonusItem);
            }
            if kind == JunctionType::BonusItem {
                assert(nodes[i as int].1 == JunctionType::BonusItem);
            }
        }
        i += 1;
    }
    agents
}

/// Takes every agent away, as a session ends.
pub fn despawn_agents(agents: &mut Vec<NavAgent>)
    ensures
        final(agents)@.len() == 0,
{
    agents.clear();
}

} // verus!
