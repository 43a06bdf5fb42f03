//! Navigation agents and the policies by which each archetype picks its next
//! junction from a pool of candidates.

use vstd::prelude::*;
use crate::geometry::{dist_sq, distance_sq, point_distance_sq, Aim, Point};
use crate::graph::{Junction, JunctionGraph};

verus! {

/// The behaviour an agent follows.
#[derive(Clone, Copy, Debug, PartialEq, Eq, Structural)]
pub enum NavAgentType {
    /// Steered by the player's input.
    Player,
    /// Chases the player's position.
    Shadow,
    /// Heads for the junction the player is heading for.
    Sneaky,
    /// Heads for a point ahead of Shadow's destination.
    Moody,
    /// Chases the player from afar, flees from close by.
    Pokey,
    /// Flees from the player.
    Fearful,
}

/// An agent on the junction graph.
pub struct NavAgent {
    /// Where the agent is.
    pub position: Point,
    /// The junction it is heading for; `None` while it stands still.
    pub junction_target: Option<usize>,
    /// The junction it reached last, if any.
    pub junction_previous: Option<usize>,
    /// The candidates it chose its target from on its last arrival.
    pub junction_pool: Vec<usize>,
    /// Its own behaviour.
    pub type_base: NavAgentType,
    /// A behaviour granted from outside, which takes precedence.
    pub type_modified: Option<NavAgentType>,
}

impl NavAgent {
    /// The behaviour in effect: the granted one if any, else its own.
    pub open spec fn behaviour_spec(&self) -> NavAgentType {
        match self.type_modified {
            Some(k) => k,
            None => self.type_base,
        }
    }

    pub fn behaviour(&self) -> (r: NavAgentType)
        ensures
            r == self.behaviour_spec(),
    {
        match self.type_modified {
            Some(k) => k,
            None => self.type_base,
        }
    }

    /// A fresh agent of behaviour `kind` standing at `position`, heading for
    /// junction `at`, with nothing reached yet and an empty pool.
    pub fn new(kind: NavAgentType, at: usize, position: Point) -> (r: NavAgent)
        ensures
            r.position == position,
            r.junction_target == Some(at),
            r.junction_previous is None,
            r.junction_pool@.len() == 0,
            r.type_base == kind,
            r.type_modified is None,
    {
        NavAgent {
            position,
            junction_target: Some(at),
            junction_previous: None,
            junction_pool: Vec::new(),
            type_base: kind,
            type_modified: None,
        }
    }
}

/// Directional input: each axis counts by its sign only.
#[derive(Clone, Copy, Debug, PartialEq, Eq, Structural)]
pub struct Steer {
    pub x: i32,
    pub y: i32,
}

/// What the agents may read of one another, as it stood when a tick began.
#[derive(Clone, Copy, Debug, PartialEq, Eq, Structural)]
pub struct World {
    pub player_position: Option<Point>,
    pub player_target: Option<usize>,
    pub shadow_position: Option<Point>,
    pub shadow_target: Option<usize>,
}

/// Whether a policy wants the candidate nearest to its aim or farthest from it.
#[derive(Clone, Copy, Debug, PartialEq, Eq, Structural)]
pub enum Preference {
    Nearest,
    Farthest,
}

/// A point to aim at, and which way to rank candidates by it.
#[derive(Clone, Copy, Debug, PartialEq, Eq, Structural)]
pub struct Goal {
    pub aim: Aim,
    pub preference: Preference,
}

/// How far ahead of the player its input projects, in world units.
pub const PROJECTION_DISTANCE: i64 = 2000;

/// Beyond this distance from the player Pokey chases it; within it, Pokey
/// flees.
pub const POKEY_RANGE: i64 = 160;

/// The input is below the dead zone: no axis is pressed.
pub open spec fn is_idle(input: Steer) -> bool {
    input.x == 0 && input.y == 0
}

pub open spec fn sign(v: int) -> int {
    if v > 0 {
        1
    } else if v < 0 {
        -1
    } else {
        0
    }
}

pub open spec fn aim_at(p: Point) -> Aim {
    Aim { x: p.x as i64, y: p.y as i64 }
}

/// A point `PROJECTION_DISTANCE` ahead of `me` along each pressed axis.
pub open spec fn projected(me: Point, input: Steer) -> Aim {
    Aim {
        x: (me.x + sign(input.x as int) * PROJECTION_DISTANCE) as i64,
        y: (me.y + sign(input.y as int) * PROJECTION_DISTANCE) as i64,
    }
}

/// The point as far beyond `to` as `to` lies beyond `from`.
pub open spec fn ahead_of(from: Point, to: Point) -> Aim {
    Aim { x: (2 * to.x - from.x) as i64, y: (2 * to.y - from.y) as i64 }
}

/// The position of junction `target`, where it names one.
pub open spec fn junction_point(nodes: Seq<Junction>, target: Option<usize>) -> Option<Point> {
    match target {
        Some(j) => if j < nodes.len() {
            Some(nodes[j as int].0)
        } else {
            None
        },
        None => None,
    }
}

pub open spec fn chase(p: Option<Point>) -> Option<Goal> {
    match p {
        Some(q) => Some(Goal { aim: aim_at(q), preference: Preference::Nearest }),
        None => None,
    }
}

/// What an agent of behaviour `kind` at `me` aims for; `None` when the
/// point it needs is missing from the world.
pub open spec fn goal_spec(
    kind: NavAgentType,
    nodes: Seq<Junction>,
    world: World,
    me: Point,
    input: Steer,
) -> Option<Goal> {
    match kind {
        NavAgentType::Player => Some(
            Goal { aim: projected(me, input), preference: Preference::Nearest },
        ),
        NavAgentType::Shadow => chase(world.player_position),
        NavAgentType::Sneaky => match junction_point(nodes, world.player_target) {
            Some(q) => chase(Some(q)),
            None => chase(world.player_position),
        },
        NavAgentType::Moody => match (junction_point(nodes, world.shadow_target), world.shadow_position) {
            (Some(q), Some(s)) => Some(Goal { aim: ahead_of(s, q), preference: Preference::Nearest }),
            _ => chase(world.player_position),
        },
        NavAgentType::Pokey => match world.player_position {
            Some(p) => Some(
                Goal {
                    aim: aim_at(p),
                    preference: if dist_sq(me.x as int, me.y as int, p.x as int, p.y as int)
                        > POKEY_RANGE * POKEY_RANGE {
                        Preference::Nearest
                    } else {
                        Preference::Farthest
                    },
                },
            ),
            None => None,
        },
        NavAgentType::Fearful => match world.player_position {
            Some(p) => Some(Goal { aim: aim_at(p), preference: Preference::Farthest }),
            None => None,
        },
    }
}

/// Squared distance from junction `j` to `aim`.
pub open spec fn aim_dist(nodes: Seq<Junction>, j: usize, aim: Aim) -> int {
    dist_sq(nodes[j as int].0.x as int, nodes[j as int].0.y as int, aim.x as int, aim.y as int)
}

/// `a` ranks strictly before `b`.
pub open spec fn ranks_before(da: int, db: int, far: bool) -> bool {
    if far {
        da > db
    } else {
        da < db
    }
}

/// The place in `pool` of the best of its first `n` candidates: the one
/// nearest to (or farthest from) `aim`, the earliest on a tie.
pub open spec fn best_index(pool: Seq<usize>, nodes: Seq<Junction>, aim: Aim, far: bool, n: int) -> int
    decreases n,
{
    if n <= 1 {
        0
    } else {
        let b = best_index(pool, nodes, aim, far, n - 1);
        if ranks_before(aim_dist(nodes, pool[n - 1], aim), aim_dist(nodes, pool[b], aim), far) {
            n - 1
        } else {
            b
        }
    }
}

/// The best candidate beats or ties every other one, and strictly beats
/// every one before it.
pub proof fn lemma_best_index(pool: Seq<usize>, nodes: Seq<Junction>, aim: Aim, far: bool, n: int)
    requires
        0 < n <= pool.len(),
    ensures
        0 <= best_index(pool, nodes, aim, far, n) < n,
        forall|k: int|
            0 <= k < n ==> !ranks_before(
                aim_dist(nodes, #[trigger] pool[k], aim),
                aim_dist(nodes, pool[best_index(pool, nodes, aim, far, n)], aim),
                far,
            ),
        forall|k: int|
            0 <= k < best_index(pool, nodes, aim, far, n) ==> ranks_before(
                aim_dist(nodes, pool[best_index(pool, nodes, aim, far, n)], aim),
                aim_dist(nodes, #[trigger] pool[k], aim),
                far,
            ),
    decreases n,
{
    if n > 1 {
        lemma_best_index(pool, nodes, aim, far, n - 1);
    }
}

/// Where in `pool` the candidate nearest to `aim` (farthest, with `far`)
/// stands; the earliest of equals.
pub fn pick(pool: &Vec<usize>, graph: &JunctionGraph, aim: Aim, far: bool) -> (r: usize)
    requires
        pool@.len() > 0,
        forall|k: int| 0 <= k < pool@.len() ==> #[trigger] pool@[k] < graph.nodes().len(),
        aim.fits(),
    ensures
        r == best_index(pool@, graph.nodes(), aim, far, pool@.len() as int),
        r < pool@.len(),
        forall|k: int|
            0 <= k < pool@.len() ==> !ranks_before(
                aim_dist(graph.nodes(), #[trigger] pool@[k], aim),
                aim_dist(graph.nodes(), pool@[r as int], aim),
                far,
            ),
        forall|k: int|
            0 <= k < r ==> ranks_before(
                aim_dist(graph.nodes(), pool@[r as int], aim),
                aim_dist(graph.nodes(), #[trigger] pool@[k], aim),
                far,
            ),
{
    let mut best: usize = 0;
    let mut best_d: i128 = distance_sq(graph.junction(pool[0]).0, aim);
    let mut i: usize = 1;
    while i < pool.len()
        invariant
            1 <= i <= pool@.len(),
            forall|k: int| 0 <= k < pool@.len() ==> #[trigger] pool@[k] < graph.nodes().len(),
            aim.fits(),
            best == best_index(pool@, graph.nodes(), aim, far, i as int),
            best < i,
            best_d == aim_dist(graph.nodes(), pool@[best as int], aim),
        decreases pool@.len() - i,
    {
        let d = distance_sq(graph.junction(pool[i]).0, aim);
        if (far && d > best_d) || (!far && d < best_d) {
            best = i;
            best_d = d;
        }
        i += 1;
    }
    proof {
        lemma_best_index(pool@, graph.nodes(), aim, far, pool@.len() as int);
    }
    best
}

fn aim_from(p: Point) -> (r: Aim)
    ensures
        r == aim_at(p),
        r.fits(),
{
    Aim::from_point(p)
}

fn chase_goal(p: Option<Point>) -> (r: Option<Goal>)
    ensures
        r == chase(p),
        r matches Some(g) ==> g.aim.fits(),
{
    match p {
        Some(q) => Some(Goal { aim: aim_from(q), preference: Preference::Nearest }),
        None => None,
    }
}

fn axis_sign(v: i32) -> (r: i64)
    ensures
        r == sign(v as int),
{
    if v > 0 {
        1
    } else if v < 0 {
        -1
    } else {
        0
    }
}

/// The position of junction `target` in `graph`, where it names one.
pub fn target_point(graph: &JunctionGraph, target: Option<usize>) -> (r: Option<Point>)
    ensures
        r == junction_point(graph.nodes(), target),
{
    match target {
        Some(j) => if j < graph.junction_count() {
            Some(graph.junction(j).0)
        } else {
            None
        },
        None => None,
    }
}

/// What an agent of behaviour `kind` at `me` aims for, given the world and
/// the input.
pub fn goal(kind: NavAgentType, graph: &JunctionGraph, world: &World, me: Point, input: Steer) -> (r:
    Option<Goal>)
    ensures
        r == goal_spec(kind, graph.nodes(), *world, me, input),
        r matches Some(g) ==> g.aim.fits(),
{
    match kind {
        NavAgentType::Player => {
            let x = me.x as i64 + axis_sign(input.x) * PROJECTION_DISTANCE;
            let y = me.y as i64 + axis_sign(input.y) * PROJECTION_DISTANCE;
            Some(Goal { aim: Aim { x, y }, preference: Preference::Nearest })
        },
        NavAgentType::Shadow => chase_goal(world.player_position),
        NavAgentType::Sneaky => match target_point(graph, world.player_target) {
            Some(q) => chase_goal(Some(q)),
            None => chase_goal(world.player_position),
        },
        NavAgentType::Moody => match (target_point(graph, world.shadow_target), world.shadow_position) {
            (Some(q), Some(s)) => {
                let x = 2 * q.x as i64 - s.x as i64;
                let y = 2 * q.y as i64 - s.y as i64;
                Some(Goal { aim: Aim { x, y }, preference: Preference::Nearest })
            },
            _ => chase_goal(world.player_position),
        },
        NavAgentType::Pokey => match world.player_position {
            Some(p) => {
                let far = point_distance_sq(me, p) <= (POKEY_RANGE * POKEY_RANGE) as i128;
                Some(
                    Goal {
                        aim: aim_from(p),
                        preference: if far {
                            Preference::Farthest
                        } else {
                            Preference::Nearest
                        },
                    },
                )
            },
            None => None,
        },
        NavAgentType::Fearful => match world.player_position {
            Some(p) => Some(Goal { aim: aim_from(p), preference: Preference::Farthest }),
            None => None,
        },
    }
}

/// The destination an agent of behaviour `kind` at `me`, now heading for
/// `current`, picks from `pool`: none from an empty pool; for the player
/// with idle input, `current` again; the first candidate when its goal is
/// missing from the world; else the best candidate for its goal.
pub open spec fn destination_spec(
    kind: NavAgentType,
    pool: Seq<usize>,
    nodes: Seq<Junction>,
    world: World,
    me: Point,
    current: Option<usize>,
    input: Steer,
) -> Option<usize> {
    if pool.len() == 0 {
        None
    } else if kind == NavAgentType::Player && is_idle(input) {
        current
    } else {
        match goal_spec(kind, nodes, world, me, input) {
            Some(g) => Some(
                pool[best_index(
                    pool,
                    nodes,
                    g.aim,
                    g.preference == Preference::Farthest,
                    pool.len() as int,
                )],
            ),
            None => Some(pool[0]),
        }
    }
}

pub fn choose_destination(
    kind: NavAgentType,
    pool: &Vec<usize>,
    graph: &JunctionGraph,
    world: &World,
    me: Point,
    current: Option<usize>,
    input: Steer,
) -> (r: Option<usize>)
    requires
        forall|k: int| 0 <= k < pool@.len() ==> #[trigger] pool@[k] < graph.nodes().len(),
    ensures
        r == destination_spec(kind, pool@, graph.nodes(), *world, me, current, input),
        r matches Some(j) ==> pool@.contains(j) || r == current,
{
    if pool.len() == 0 {
        return None;
    }
    if kind == NavAgentType::Player && input.x == 0 && input.y == 0 {
        return current;
    }
    match goal(kind, graph, world, me, input) {
        Some(g) => {
            let i = pick(pool, graph, g.aim, g.preference == Preference::Farthest);
            Some(pool[i])
        },
        None => Some(pool[0]),
    }
}

} // verus!
