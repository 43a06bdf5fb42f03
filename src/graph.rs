//! The junction graph: junctions with a position and a role, and a flat table
//! of connection slots, `MAX_SLOTS` per junction, where a filled slot holds
//! the flat index of the slot it is linked to.

use vstd::prelude::*;
use crate::geometry::{dist_sq, point_distance_sq, Point};
use crate::slots::{junction_of_spec, lemma_block_bounds, MAX_SLOTS};

verus! {

/// The special role a junction plays in a level.
#[derive(Clone, Copy, Debug, PartialEq, Eq, Structural)]
pub enum JunctionType {
    /// Nothing special: a pellet lies here.
    Plain,
    /// A power pellet lies here.
    PowerPellet,
    /// Ghosts spawn here.
    SpawnArea,
    /// The player, or a bonus item, appears here.
    BonusItem,
}

/// A position and a role.
#[derive(Clone, Copy, Debug, PartialEq, Eq, Structural)]
pub struct Junction(pub Point, pub JunctionType);

/// The junctions of a level, indexed by junction id.
pub struct Junctions(pub Vec<Junction>);

/// The slot table: entry `j * MAX_SLOTS + k` is direction `k` of junction
/// `j`, and holds the flat index of the slot it is linked to, if any.
pub struct Connections(pub Vec<Option<usize>>);

/// Why a graph operation was refused. A refused operation leaves the graph
/// as it was.
#[derive(Clone, Copy, Debug, PartialEq, Eq, Structural)]
pub enum GraphError {
    /// No junction has that id.
    NotFound,
    /// One of the two slots is already linked.
    SlotOccupied,
    /// Both slots belong to the same junction.
    SelfConnection,
    /// A slot index lies beyond the table.
    InvalidSlot,
}

/// Two junctions closer than this (in world units) would overlap.
pub const JUNCTION_RADIUS: u32 = 16;

/// The table is made of whole junction blocks, every link points into the
/// table, is returned by the slot it points to, and joins two different
/// junctions.
pub open spec fn table_wf(t: Seq<Option<usize>>) -> bool {
    &&& t.len() as int % MAX_SLOTS as int == 0
    &&& forall|a: int|
        0 <= a < t.len() && #[trigger] t[a] is Some ==> {
            let b = t[a]->Some_0 as int;
            &&& 0 <= b < t.len()
            &&& t[b] == Some(a as usize)
            &&& junction_of_spec(a) != junction_of_spec(b)
        }
}

/// `p` lies strictly within `radius` of junction `j`.
pub open spec fn is_near(j: Junction, p: Point, radius: int) -> bool {
    dist_sq(j.0.x as int, j.0.y as int, p.x as int, p.y as int) < radius * radius
}

/// The first junction, from `i` on, that `p` lies strictly within `radius` of.
pub open spec fn first_near(nodes: Seq<Junction>, p: Point, radius: int, i: int) -> Option<int>
    decreases nodes.len() - i,
{
    if i < 0 || i >= nodes.len() {
        None
    } else if is_near(nodes[i], p, radius) {
        Some(i)
    } else {
        first_near(nodes, p, radius, i + 1)
    }
}

/// The table after a junction block of empty slots is appended.
pub open spec fn table_grown(t: Seq<Option<usize>>) -> Seq<Option<usize>> {
    t + Seq::new(MAX_SLOTS as nat, |i: int| None::<usize>)
}

/// What `connect(a, b)` answers on table `t`.
pub open spec fn connect_outcome(t: Seq<Option<usize>>, a: int, b: int) -> Result<(), GraphError> {
    if a >= t.len() || b >= t.len() {
        Err(GraphError::InvalidSlot)
    } else if junction_of_spec(a) == junction_of_spec(b) {
        Err(GraphError::SelfConnection)
    } else if t[a] is Some || t[b] is Some {
        Err(GraphError::SlotOccupied)
    } else {
        Ok(())
    }
}

/// The table after slots `a` and `b` are linked to each other.
pub open spec fn table_linked(t: Seq<Option<usize>>, a: int, b: int) -> Seq<Option<usize>> {
    t.update(a, Some(b as usize)).update(b, Some(a as usize))
}


/// The index that table index `i` had before the block of junction `x` was
/// taken out.
pub open spec fn index_before_removal(i: int, x: int) -> int {
    if i < x * MAX_SLOTS as int {
        i
    } else {
        i + MAX_SLOTS as int
    }
}

/// The index that table index `i` has once the block of junction `x` is
/// taken out (for `i` outside that block).
pub open spec fn index_after_removal(i: int, x: int) -> int {
    if i < x * MAX_SLOTS as int {
        i
    } else {
        i - MAX_SLOTS as int
    }
}

/// The id that junction `j` has once junction `x` is taken out (for `j != x`).
pub open spec fn id_after_removal(j: int, x: int) -> int {
    if j < x {
        j
    } else {
        j - 1
    }
}

/// A slot entry once junction `x` is taken out: a link into `x` is cleared,
/// a link past `x` is moved down one block.
pub open spec fn entry_after_removal(v: Option<usize>, x: int) -> Option<usize> {
    match v {
        Some(b) => if junction_of_spec(b as int) == x {
            None
        } else {
            Some(index_after_removal(b as int, x) as usize)
        },
        None => None,
    }
}

/// The table once junction `x` is taken out: its block disappears, links
/// into it are cleared, and later blocks move down to stay contiguous.
pub open spec fn table_removed(t: Seq<Option<usize>>, x: int) -> Seq<Option<usize>> {
    Seq::new(
        (t.len() - MAX_SLOTS as int) as nat,
        |i: int| entry_after_removal(t[index_before_removal(i, x)], x),
    )
}

/// The table once every slot of junction `x`, and every slot linked to one
/// of them, is cleared.
pub open spec fn table_cleared(t: Seq<Option<usize>>, x: int) -> Seq<Option<usize>> {
    Seq::new(
        t.len(),
        |i: int|
            if junction_of_spec(i) == x {
                None
            } else {
                match t[i] {
                    Some(b) => if junction_of_spec(b as int) == x {
                        None
                    } else {
                        t[i]
                    },
                    None => None,
                }
            },
    )
}

/// Entry `i` of the table once the first `k` slots of the block starting at
/// `base` are cleared together with their partners.
pub open spec fn partly_cleared(t: Seq<Option<usize>>, base: int, k: int, i: int) -> Option<usize> {
    if base <= i < base + k {
        None
    } else {
        match t[i] {
            Some(b) => if base <= b < base + k {
                None
            } else {
                t[i]
            },
            None => None,
        }
    }
}

proof fn lemma_table_removed_wf(t: Seq<Option<usize>>, x: int)
    requires
        table_wf(t),
        0 <= x,
        (x + 1) * MAX_SLOTS as int <= t.len(),
        t.len() <= usize::MAX,
    ensures
        table_wf(table_removed(t, x)),
{
    let r = table_removed(t, x);
    assert(r.len() as int % MAX_SLOTS as int == 0);
    assert forall|i: int| 0 <= i < r.len() && #[trigger] r[i] is Some implies {
        let c = r[i]->Some_0 as int;
        &&& 0 <= c < r.len()
        &&& r[c] == Some(i as usize)
        &&& junction_of_spec(i) != junction_of_spec(c)
    } by {
        let oi = index_before_removal(i, x);
        lemma_block_bounds(i, x);
        lemma_block_bounds(oi, x);
        assert(junction_of_spec(oi) != x);
        assert(t[oi] is Some);
        let b = t[oi]->Some_0 as int;
        lemma_block_bounds(b, x);
        assert(t[b] == Some(oi as usize));
        assert(junction_of_spec(b) != x);
        assert(junction_of_spec(oi) != x);
        let c = index_after_removal(b, x);
        assert(index_before_removal(c, x) == b);
        assert(index_after_removal(oi, x) == i);
        lemma_block_bounds(c, x);
        assert(r[c] == entry_after_removal(t[b], x));
        assert(0 <= c < r.len());
        assert(r[i] == Some(c as usize));
        assert(r[c] == Some(i as usize));
        let jo = junction_of_spec(oi);
        let jb = junction_of_spec(b);
        lemma_block_bounds(oi, jo);
        lemma_block_bounds(b, jb);
        lemma_block_bounds(i, id_after_removal(jo, x));
        lemma_block_bounds(c, id_after_removal(jb, x));
        assert(junction_of_spec(i) == id_after_removal(jo, x));
        assert(junction_of_spec(c) == id_after_removal(jb, x));
    }
}

/// The junctions reached in one hop from the first `k` slots of junction
/// `j`, in slot order, each listed once.
pub open spec fn neighbor_prefix(t: Seq<Option<usize>>, j: int, k: int) -> Seq<usize>
    decreases k,
{
    if k <= 0 {
        Seq::empty()
    } else {
        let before = neighbor_prefix(t, j, k - 1);
        match t[j * MAX_SLOTS as int + k - 1] {
            Some(b) => {
                let n = junction_of_spec(b as int) as usize;
                if before.contains(n) {
                    before
                } else {
                    before.push(n)
                }
            },
            None => before,
        }
    }
}

/// The junctions reached in one hop from junction `j`, in slot order, each
/// listed once.
pub open spec fn neighbor_list(t: Seq<Option<usize>>, j: int) -> Seq<usize> {
    neighbor_prefix(t, j, MAX_SLOTS as int)
}

/// Some slot among the first `k` of junction `j` links into junction `n`.
pub open spec fn linked_within(t: Seq<Option<usize>>, j: int, k: int, n: int) -> bool {
    exists|s: int|
        0 <= s < k && #[trigger] t[j * MAX_SLOTS as int + s] is Some && junction_of_spec(
            t[j * MAX_SLOTS as int + s]->Some_0 as int,
        ) == n
}

/// Junction `n` is one hop from junction `j`.
pub open spec fn adjacent(t: Seq<Option<usize>>, j: int, n: int) -> bool {
    linked_within(t, j, MAX_SLOTS as int, n)
}

/// The prefix lists each junction once, and lists exactly those reached from
/// the first `k` slots.
pub proof fn lemma_neighbor_prefix(t: Seq<Option<usize>>, j: int, k: int)
    requires
        0 <= k <= MAX_SLOTS as int,
    ensures
        neighbor_prefix(t, j, k).no_duplicates(),
        forall|n: int|
            0 <= n <= usize::MAX ==> (neighbor_prefix(t, j, k).contains(n as usize)
                <==> linked_within(t, j, k, n)),
    decreases k,
{
    if k > 0 {
        lemma_neighbor_prefix(t, j, k - 1);
        let before = neighbor_prefix(t, j, k - 1);
        let cur = neighbor_prefix(t, j, k);
        let idx = j * MAX_SLOTS as int + (k - 1);
        let hit = t[idx] is Some;
        let x = junction_of_spec(t[idx]->Some_0 as int);
        if hit {
            let b = t[idx]->Some_0;
            assert(0 <= x <= b);
        }
        let pushed = hit && !before.contains(x as usize);
        assert(pushed ==> cur == before.push(x as usize));
        assert(!pushed ==> cur == before);
        assert forall|n: int| 0 <= n <= usize::MAX implies (cur.contains(n as usize)
            <==> linked_within(t, j, k, n)) by {
            if hit && x == n {
                assert(t[j * MAX_SLOTS as int + (k - 1)] is Some);
                assert(linked_within(t, j, k, n));
                if !before.contains(n as usize) {
                    assert(cur[before.len() as int] == n as usize);
                } else {
                    let m = choose|m: int| 0 <= m < before.len() && before[m] == n as usize;
                    assert(cur[m] == n as usize);
                }
            } else {
                if linked_within(t, j, k, n) {
                    let s = choose|s: int|
                        0 <= s < k && #[trigger] t[j * MAX_SLOTS as int + s] is Some
                            && junction_of_spec(t[j * MAX_SLOTS as int + s]->Some_0 as int) == n;
                    assert(s != k - 1);
                    assert(linked_within(t, j, k - 1, n));
                }
                if linked_within(t, j, k - 1, n) {
                    let s = choose|s: int|
                        0 <= s < k - 1 && #[trigger] t[j * MAX_SLOTS as int + s] is Some
                            && junction_of_spec(t[j * MAX_SLOTS as int + s]->Some_0 as int) == n;
                    assert(t[j * MAX_SLOTS as int + s] is Some);
                    assert(linked_within(t, j, k, n));
                }
                if cur.contains(n as usize) {
                    let m = choose|m: int| 0 <= m < cur.len() && cur[m] == n as usize;
                    if pushed {
                        assert(m < before.len());
                    }
                    assert(before[m] == n as usize);
                }
                if before.contains(n as usize) {
                    let m = choose|m: int| 0 <= m < before.len() && before[m] == n as usize;
                    assert(cur[m] == n as usize);
                }
            }
        }
    }
}

/// Whether `v` holds `n`.
pub fn list_contains(v: &Vec<usize>, n: usize) -> (r: bool)
    ensures
        r == v@.contains(n),
{
    let mut i: usize = 0;
    while i < v.len()
        invariant
            i <= v@.len(),
            forall|k: int| 0 <= k < i ==> v@[k] != n,
        decreases v@.len() - i,
    {
        if v[i] == n {
            return true;
        }
        i += 1;
    }
    false
}

/// The links among the first `n` slots of `t`, each once, as the pair of
/// its slots with the lower one first, in order of that slot.
pub open spec fn links_prefix(t: Seq<Option<usize>>, n: int) -> Seq<(usize, usize)>
    decreases n,
{
    if n <= 0 {
        Seq::empty()
    } else {
        let before = links_prefix(t, n - 1);
        match t[n - 1] {
            Some(b) => if n - 1 < b {
                before.push(((n - 1) as usize, b))
            } else {
                before
            },
            None => before,
        }
    }
}

/// A level graph. Its slot table holds exactly one block per junction and
/// stays symmetric.
pub struct JunctionGraph {
    junctions: Junctions,
    connections: Connections,
}

impl JunctionGraph {
    /// The junctions, by id.
    pub closed spec fn nodes(&self) -> Seq<Junction> {
        self.junctions.0@
    }

    /// The slot table.
    pub closed spec fn table(&self) -> Seq<Option<usize>> {
        self.connections.0@
    }

    pub open spec fn wf(&self) -> bool {
        &&& self.table().len() == self.nodes().len() * MAX_SLOTS as int
        &&& table_wf(self.table())
    }

    /// An empty graph.
    pub fn new() -> (r: JunctionGraph)
        ensures
            r.wf(),
            r.nodes().len() == 0,
            r.table().len() == 0,
    {
        JunctionGraph { junctions: Junctions(Vec::new()), connections: Connections(Vec::new()) }
    }

    pub fn junction_count(&self) -> (r: usize)
        ensures
            r == self.nodes().len(),
    {
        self.junctions.0.len()
    }

    pub fn slot_count(&self) -> (r: usize)
        ensures
            r == self.table().len(),
    {
        self.connections.0.len()
    }

    pub fn junction(&self, id: usize) -> (r: Junction)
        requires
            id < self.nodes().len(),
        ensures
            r == self.nodes()[id as int],
    {
        self.junctions.0[id]
    }

    /// What slot `index` is linked to.
    pub fn slot(&self, index: usize) -> (r: Option<usize>)
        requires
            index < self.table().len(),
        ensures
            r == self.table()[index as int],
    {
        self.connections.0[index]
    }

    /// The first junction that `p` lies strictly within `radius` of.
    pub fn junction_near(&self, p: Point, radius: u32) -> (r: Option<usize>)
        ensures
            r is None <==> forall|i: int|
                0 <= i < self.nodes().len() ==> !is_near(#[trigger] self.nodes()[i], p, radius as int),
            r matches Some(i) ==> i < self.nodes().len() && is_near(self.nodes()[i as int], p, radius as int)
                && forall|k: int| 0 <= k < i ==> !is_near(#[trigger] self.nodes()[k], p, radius as int),
            r matches Some(i) ==> first_near(self.nodes(), p, radius as int, 0) == Some(i as int),
            r is None ==> first_near(self.nodes(), p, radius as int, 0) is None,
    {
        assert(radius as i128 * radius as i128 <= 0xffff_ffffi128 * 0xffff_ffffi128) by (nonlinear_arith)
            requires
                radius <= 0xffff_ffffu32,
        ;
        let limit: i128 = radius as i128 * radius as i128;
        let mut i: usize = 0;
        while i < self.junctions.0.len()
            invariant
                i <= self.nodes().len(),
                limit == radius as int * radius as int,
                forall|k: int| 0 <= k < i ==> !is_near(#[trigger] self.nodes()[k], p, radius as int),
                first_near(self.nodes(), p, radius as int, 0) == first_near(
                    self.nodes(),
                    p,
                    radius as int,
                    i as int,
                ),
            decreases self.nodes().len() - i,
        {
            if point_distance_sq(self.junctions.0[i].0, p) < limit {
                return Some(i);
            }
            i += 1;
        }
        None
    }

    /// Adds a junction at `position`, with `MAX_SLOTS` empty slots, and
    /// returns its id; refused (`None`, graph unchanged) when `position` lies
    /// within `JUNCTION_RADIUS` of a junction already there.
    pub fn add_junction(&mut self, position: Point, kind: JunctionType) -> (r: Option<usize>)
        requires
            old(self).wf(),
            old(self).table().len() + MAX_SLOTS <= usize::MAX,
        ensures
            final(self).wf(),
            r is None <==> exists|i: int|
                0 <= i < old(self).nodes().len() && is_near(
                    #[trigger] old(self).nodes()[i],
                    position,
                    JUNCTION_RADIUS as int,
                ),
            r is None ==> *final(self) == *old(self),
            r matches Some(id) ==> {
                &&& id == old(self).nodes().len()
                &&& final(self).nodes() == old(self).nodes().push(Junction(position, kind))
                &&& final(self).table() == table_grown(old(self).table())
            },
    {
        if self.junction_near(position, JUNCTION_RADIUS).is_some() {
            return None;
        }
        let id = self.junctions.0.len();
        let ghost t0 = self.table();
        self.junctions.0.push(Junction(position, kind));
        let mut k: usize = 0;
        while k < MAX_SLOTS
            invariant
                k <= MAX_SLOTS,
                self.table() == t0 + Seq::new(k as nat, |i: int| None::<usize>),
                t0.len() + MAX_SLOTS <= usize::MAX,
                table_wf(t0),
                self.nodes() == old(self).nodes().push(Junction(position, kind)),
                t0 == old(self).table(),
            decreases MAX_SLOTS - k,
        {
            self.connections.0.push(None);
            k += 1;
            assert(self.table() =~= t0 + Seq::new(k as nat, |i: int| None::<usize>));
        }
        assert(self.table() =~= table_grown(t0));
        Some(id)
    }

    /// Moves junction `id` to `position`; its links stay as they were.
    pub fn move_junction(&mut self, id: usize, position: Point) -> (r: Result<(), GraphError>)
        requires
            old(self).wf(),
        ensures
            final(self).wf(),
            final(self).table() == old(self).table(),
            r is Err <==> id >= old(self).nodes().len(),
            r is Err ==> r == Err::<(), GraphError>(GraphError::NotFound) && *final(self) == *old(self),
            r is Ok ==> final(self).nodes() == old(self).nodes().update(
                id as int,
                Junction(position, old(self).nodes()[id as int].1),
            ),
    {
        if id >= self.junctions.0.len() {
            return Err(GraphError::NotFound);
        }
        let kind = self.junctions.0[id].1;
        self.junctions.0.set(id, Junction(position, kind));
        Ok(())
    }

    /// Gives junction `id` the role `kind`; its position and links stay.
    pub fn set_junction_type(&mut self, id: usize, kind: JunctionType) -> (r: Result<(), GraphError>)
        requires
            old(self).wf(),
        ensures
            final(self).wf(),
            final(self).table() == old(self).table(),
            r is Err <==> id >= old(self).nodes().len(),
            r is Err ==> r == Err::<(), GraphError>(GraphError::NotFound) && *final(self) == *old(self),
            r is Ok ==> final(self).nodes() == old(self).nodes().update(
                id as int,
                Junction(old(self).nodes()[id as int].0, kind),
            ),
    {
        if id >= self.junctions.0.len() {
            return Err(GraphError::NotFound);
        }
        let position = self.junctions.0[id].0;
        self.junctions.0.set(id, Junction(position, kind));
        Ok(())
    }

    /// Links slot `a` to slot `b` and back. Refused, graph unchanged, with
    /// `InvalidSlot` when either lies beyond the table, else `SelfConnection`
    /// when both belong to one junction, else `SlotOccupied` when either is
    /// already linked.
    pub fn connect(&mut self, a: usize, b: usize) -> (r: Result<(), GraphError>)
        requires
            old(self).wf(),
        ensures
            final(self).wf(),
            final(self).nodes() == old(self).nodes(),
            r is Err ==> *final(self) == *old(self),
            (r == Err::<(), GraphError>(GraphError::InvalidSlot)) <==> (a >= old(self).table().len()
                || b >= old(self).table().len()),
            (r == Err::<(), GraphError>(GraphError::SelfConnection)) <==> (a < old(self).table().len()
                && b < old(self).table().len() && junction_of_spec(a as int) == junction_of_spec(
                b as int,
            )),
            (r == Err::<(), GraphError>(GraphError::SlotOccupied)) <==> (a < old(self).table().len()
                && b < old(self).table().len() && junction_of_spec(a as int) != junction_of_spec(
                b as int,
            ) && (old(self).table()[a as int] is Some || old(self).table()[b as int] is Some)),
            r is Ok ==> final(self).table() == table_linked(old(self).table(), a as int, b as int),
            r is Ok ==> junction_of_spec(a as int) != junction_of_spec(b as int),
            r == connect_outcome(old(self).table(), a as int, b as int),
    {
        let n = self.connections.0.len();
        if a >= n || b >= n {
            return Err(GraphError::InvalidSlot);
        }
        if a / MAX_SLOTS == b / MAX_SLOTS {
            return Err(GraphError::SelfConnection);
        }
        if self.connections.0[a].is_some() || self.connections.0[b].is_some() {
            return Err(GraphError::SlotOccupied);
        }
        let ghost t0 = self.table();
        self.connections.0.set(a, Some(b));
        self.connections.0.set(b, Some(a));
        assert(self.table() =~= table_linked(t0, a as int, b as int));
        assert forall|i: int| 0 <= i < self.table().len() && #[trigger] self.table()[i] is Some implies {
            let c = self.table()[i]->Some_0 as int;
            &&& 0 <= c < self.table().len()
            &&& self.table()[c] == Some(i as usize)
            &&& junction_of_spec(i) != junction_of_spec(c)
        } by {
            if i != a && i != b {
                assert(t0[i] is Some);
            }
        }
        Ok(())
    }
    /// Takes junction `id` out: clears every slot linked to it, drops its
    /// slot block and its record, and renumbers every later junction and
    /// every link into a later block, so that the table stays contiguous.
    /// `NotFound`, graph unchanged, when there is no such junction.
    pub fn remove_junction(&mut self, id: usize) -> (r: Result<(), GraphError>)
        requires
            old(self).wf(),
        ensures
            final(self).wf(),
            r is Err <==> id >= old(self).nodes().len(),
            r is Err ==> r == Err::<(), GraphError>(GraphError::NotFound) && *final(self) == *old(self),
            r is Ok ==> {
                &&& final(self).nodes() == old(self).nodes().remove(id as int)
                &&& final(self).table() == table_removed(old(self).table(), id as int)
            },
    {
        if id >= self.junctions.0.len() {
            return Err(GraphError::NotFound);
        }
        let ghost t0 = self.table();
        let n = self.connections.0.len();
        let lo = id * MAX_SLOTS;
        let hi = lo + MAX_SLOTS;
        let mut kept: Vec<Option<usize>> = Vec::new();
        let mut i: usize = 0;
        while i < n
            invariant
                n == t0.len(),
                t0 == self.table(),
                lo == id * MAX_SLOTS as int,
                hi == lo + MAX_SLOTS,
                hi <= n,
                i <= n,
                kept@.len() == if i <= lo {
                    i as int
                } else if i <= hi {
                    lo as int
                } else {
                    i - MAX_SLOTS
                },
                forall|k: int|
                    0 <= k < kept@.len() ==> #[trigger] kept@[k] == entry_after_removal(
                        t0[index_before_removal(k, id as int)],
                        id as int,
                    ),
            decreases n - i,
        {
            if i < lo || i >= hi {
                let v = self.connections.0[i];
                let moved = match v {
                    Some(b) => if b / MAX_SLOTS == id {
                        None
                    } else if b < lo {
                        Some(b)
                    } else {
                        Some(b - MAX_SLOTS)
                    },
                    None => None,
                };
                kept.push(moved);
            }
            i += 1;
        }
        proof {
            lemma_table_removed_wf(t0, id as int);
        }
        assert(kept@ =~= table_removed(t0, id as int));
        self.connections = Connections(kept);
        self.junctions.0.remove(id);
        Ok(())
    }

    /// Clears every slot of junction `id` and the slot each was linked to;
    /// empty slots stay empty. `NotFound`, graph unchanged, when there is no
    /// such junction.
    pub fn disconnect_all(&mut self, id: usize) -> (r: Result<(), GraphError>)
        requires
            old(self).wf(),
        ensures
            final(self).wf(),
            final(self).nodes() == old(self).nodes(),
            r is Err <==> id >= old(self).nodes().len(),
            r is Err ==> r == Err::<(), GraphError>(GraphError::NotFound) && *final(self) == *old(self),
            r is Ok ==> final(self).table() == table_cleared(old(self).table(), id as int),
    {
        if id >= self.junctions.0.len() {
            return Err(GraphError::NotFound);
        }
        let ghost t0 = self.table();
        let ghost count = self.nodes().len();
        let n = self.connections.0.len();
        assert((id + 1) * MAX_SLOTS <= t0.len()) by (nonlinear_arith)
            requires
                id < count,
                t0.len() == count * MAX_SLOTS,
        ;
        let base = id * MAX_SLOTS;
        let mut k: usize = 0;
        while k < MAX_SLOTS
            invariant
                table_wf(t0),
                t0 == old(self).table(),
                self.nodes() == old(self).nodes(),
                base == id * MAX_SLOTS as int,
                base + MAX_SLOTS <= t0.len(),
                t0.len() == n,
                k <= MAX_SLOTS,
                self.table().len() == t0.len(),
                forall|i: int|
                    0 <= i < t0.len() ==> #[trigger] self.table()[i] == partly_cleared(
                        t0,
                        base as int,
                        k as int,
                        i,
                    ),
            decreases MAX_SLOTS - k,
        {
            let s = base + k;
            let ghost before = self.table();
            proof {
                lemma_block_bounds(s as int, id as int);
                if let Some(b) = t0[s as int] {
                    lemma_block_bounds(b as int, id as int);
                }
            }
            assert(before[s as int] == t0[s as int]);
            if let Some(b) = self.connections.0[s] {
                proof {
                    lemma_block_bounds(b as int, id as int);
                }
                self.connections.0.set(b, None);
                self.connections.0.set(s, None);
            }
            proof {
                assert forall|i: int| 0 <= i < t0.len() implies #[trigger] self.table()[i]
                    == partly_cleared(t0, base as int, k + 1, i) by {
                    lemma_block_bounds(i, id as int);
                    if i == s as int {
                    } else if t0[s as int] == Some(i as usize) {
                        assert(t0[s as int] is Some);
                        assert(t0[i] == Some(s));
                    } else {
                        assert(self.table()[i] == before[i]);
                        if t0[i] is Some {
                            let c = t0[i]->Some_0 as int;
                            assert(t0[c] == Some(i as usize));
                            lemma_block_bounds(c, id as int);
                        }
                    }
                }
            }
            k += 1;
        }
        let ghost t1 = self.table();
        assert forall|i: int| 0 <= i < t0.len() implies #[trigger] t1[i] == table_cleared(
            t0,
            id as int,
        )[i] by {
            lemma_block_bounds(i, id as int);
            if t0[i] is Some {
                lemma_block_bounds(t0[i]->Some_0 as int, id as int);
            }
        }
        assert(t1 =~= table_cleared(t0, id as int));
        assert forall|i: int| 0 <= i < t1.len() && #[trigger] t1[i] is Some implies {
            let c = t1[i]->Some_0 as int;
            &&& 0 <= c < t1.len()
            &&& t1[c] == Some(i as usize)
            &&& junction_of_spec(i) != junction_of_spec(c)
        } by {
            assert(t0[i] is Some);
            let c = t0[i]->Some_0 as int;
            assert(t0[c] == Some(i as usize));
            assert(t1[c] == table_cleared(t0, id as int)[c]);
        }
        Ok(())
    }

    /// Every link of the graph once, as the pair of its slots with the
    /// lower one first, in order of that slot.
    pub fn links(&self) -> (r: Vec<(usize, usize)>)
        ensures
            r@ == links_prefix(self.table(), self.table().len() as int),
    {
        let mut out: Vec<(usize, usize)> = Vec::new();
        let mut i: usize = 0;
        while i < self.connections.0.len()
            invariant
                i <= self.table().len(),
                out@ == links_prefix(self.table(), i as int),
            decreases self.table().len() - i,
        {
            if let Some(b) = self.connections.0[i] {
                if i < b {
                    out.push((i, b));
                }
            }
            i += 1;
        }
        out
    }

    /// The junctions one hop from junction `id`, in slot order, each listed
    /// once even where several slots link into it.
    pub fn neighbors(&self, id: usize) -> (r: Vec<usize>)
        requires
            self.wf(),
            id < self.nodes().len(),
        ensures
            r@ == neighbor_list(self.table(), id as int),
            r@.no_duplicates(),
            forall|n: usize| #[trigger] r@.contains(n) <==> adjacent(self.table(), id as int, n as int),
            forall|k: int| 0 <= k < r@.len() ==> #[trigger] r@[k] < self.nodes().len(),
    {
        let ghost t = self.table();
        let ghost count = self.nodes().len();
        let total = self.connections.0.len();
        assert((id + 1) * MAX_SLOTS <= t.len()) by (nonlinear_arith)
            requires
                id < count,
                t.len() == count * MAX_SLOTS,
        ;
        let base = id * MAX_SLOTS;
        let mut found: Vec<usize> = Vec::new();
        let mut k: usize = 0;
        while k < MAX_SLOTS
            invariant
                t == self.table(),
                base == id * MAX_SLOTS as int,
                base + MAX_SLOTS <= t.len(),
                k <= MAX_SLOTS,
                found@ == neighbor_prefix(t, id as int, k as int),
            decreases MAX_SLOTS - k,
        {
            if let Some(b) = self.connections.0[base + k] {
                let n = b / MAX_SLOTS;
                if !list_contains(&found, n) {
                    found.push(n);
                }
            }
            k += 1;
        }
        proof {
            lemma_neighbor_prefix(t, id as int, MAX_SLOTS as int);
            assert forall|k: int| 0 <= k < found@.len() implies #[trigger] found@[k] < count by {
                let n = found@[k];
                assert(found@.contains((n as int) as usize));
                assert(linked_within(t, id as int, MAX_SLOTS as int, n as int));
                let s = choose|s: int|
                    0 <= s < MAX_SLOTS as int && #[trigger] t[id * MAX_SLOTS as int + s] is Some
                        && junction_of_spec(t[id * MAX_SLOTS as int + s]->Some_0 as int) == n;
                let b = t[id * MAX_SLOTS as int + s]->Some_0 as int;
                lemma_block_bounds(b, count as int);
            }
        }
        found
    }
}

} // verus!
