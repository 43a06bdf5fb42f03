//! Graph authoring: what a click at a world position does to the graph.

use vstd::prelude::*;
use crate::agents::sign;
use crate::geometry::{dist_sq, distance_sq, Aim, Point};
use crate::graph::{
    connect_outcome, first_near, is_near, table_cleared, table_linked, GraphError, Junction,
    JunctionGraph, JunctionType, JUNCTION_RADIUS,
};
use crate::slots::MAX_SLOTS;

verus! {

/// Radius, in world units, of the disc that stands for a slot.
pub const SLOT_RADIUS: u32 = 6;

/// The role that follows `kind` when a junction's role is cycled.
pub fn cycle_type(kind: JunctionType) -> (r: JunctionType)
    ensures
        kind == JunctionType::Plain ==> r == JunctionType::PowerPellet,
        kind == JunctionType::PowerPellet ==> r == JunctionType::SpawnArea,
        kind == JunctionType::SpawnArea ==> r == JunctionType::BonusItem,
        kind == JunctionType::BonusItem ==> r == JunctionType::Plain,
{
    match kind {
        JunctionType::Plain => JunctionType::PowerPellet,
        JunctionType::PowerPellet => JunctionType::SpawnArea,
        JunctionType::SpawnArea => JunctionType::BonusItem,
        JunctionType::BonusItem => JunctionType::Plain,
    }
}

/// Cosine and sine of the angle of direction `slot`, in thousandths,
/// rounded towards zero.
pub open spec fn slot_direction(slot: int) -> (int, int) {
    if slot == 0 {
        (1000, 0)
    } else if slot == 1 {
        (707, 707)
    } else if slot == 2 {
        (0, 1000)
    } else if slot == 3 {
        (-707, 707)
    } else if slot == 4 {
        (-1000, 0)
    } else if slot == 5 {
        (-707, -707)
    } else if slot == 6 {
        (0, -1000)
    } else {
        (707, -707)
    }
}

/// `radius` times a cosine or sine given in thousandths, rounded towards zero.
pub open spec fn along(radius: int, c: int) -> int {
    sign(c) * ((radius * (if c < 0 {
        -c
    } else {
        c
    })) / 1000)
}

/// Where direction `slot` of a junction at `center` is drawn and hit, at
/// `radius` from its centre.
pub open spec fn anchor_spec(center: Point, slot: int, radius: int) -> Aim {
    Aim {
        x: (center.x + along(radius, slot_direction(slot).0)) as i64,
        y: (center.y + along(radius, slot_direction(slot).1)) as i64,
    }
}

fn direction(slot: usize) -> (r: (i64, i64))
    requires
        slot < MAX_SLOTS,
    ensures
        r.0 == slot_direction(slot as int).0,
        r.1 == slot_direction(slot as int).1,
{
    if slot == 0 {
        (1000, 0)
    } else if slot == 1 {
        (707, 707)
    } else if slot == 2 {
        (0, 1000)
    } else if slot == 3 {
        (-707, 707)
    } else if slot == 4 {
        (-1000, 0)
    } else if slot == 5 {
        (-707, -707)
    } else if slot == 6 {
        (0, -1000)
    } else {
        (707, -707)
    }
}

fn scale_along(radius: u32, c: i64) -> (r: i64)
    requires
        -1000 <= c <= 1000,
    ensures
        r == along(radius as int, c as int),
        -(radius as int) <= r <= radius,
{
    let m: i64 = if c < 0 { -c } else { c };
    assert(0 <= radius * m <= radius * 1000) by (nonlinear_arith)
        requires
            0 <= m <= 1000,
            radius >= 0,
    ;
    let part: i64 = (radius as i64 * m) / 1000;
    assert(part <= radius) by (nonlinear_arith)
        requires
            part == (radius * m) / 1000,
            0 <= m <= 1000,
            radius >= 0,
    ;
    if c > 0 {
        part
    } else if c < 0 {
        -part
    } else {
        0
    }
}

/// Where direction `slot` of a junction at `center` is drawn and hit.
pub fn slot_anchor(center: Point, slot: usize, radius: u32) -> (r: Aim)
    requires
        slot < MAX_SLOTS,
    ensures
        r == anchor_spec(center, slot as int, radius as int),
        r.fits(),
{
    let d = direction(slot);
    let x = center.x as i64 + scale_along(radius, d.0);
    let y = center.y as i64 + scale_along(radius, d.1);
    assert(x == center.x + along(radius as int, slot_direction(slot as int).0));
    assert(y == center.y + along(radius as int, slot_direction(slot as int).1));
    Aim { x, y }
}

/// `cursor` hits direction `slot` of a junction at `center`.
pub open spec fn hits_slot(center: Point, slot: int, cursor: Point) -> bool {
    let a = anchor_spec(center, slot, JUNCTION_RADIUS as int);
    dist_sq(cursor.x as int, cursor.y as int, a.x as int, a.y as int) < SLOT_RADIUS * SLOT_RADIUS
}

/// The first direction, from `k` on, of a junction at `center` whose slot
/// `cursor` hits.
pub open spec fn first_slot_hit(center: Point, cursor: Point, k: int) -> Option<int>
    decreases MAX_SLOTS - k,
{
    if k < 0 || k >= MAX_SLOTS {
        None
    } else if hits_slot(center, k, cursor) {
        Some(k)
    } else {
        first_slot_hit(center, cursor, k + 1)
    }
}

/// The first direction of a junction at `center` whose slot `cursor` hits.
pub fn slot_hit(center: Point, cursor: Point) -> (r: Option<usize>)
    ensures
        r matches Some(k) ==> first_slot_hit(center, cursor, 0) == Some(k as int),
        r is None ==> first_slot_hit(center, cursor, 0) is None,
        r is None <==> forall|k: int| 0 <= k < MAX_SLOTS ==> !#[trigger] hits_slot(center, k, cursor),
        r matches Some(k) ==> k < MAX_SLOTS && hits_slot(center, k as int, cursor) && forall|m: int|
            0 <= m < k ==> !#[trigger] hits_slot(center, m, cursor),
{
    let mut k: usize = 0;
    while k < MAX_SLOTS
        invariant
            k <= MAX_SLOTS,
            forall|m: int| 0 <= m < k ==> !#[trigger] hits_slot(center, m, cursor),
            first_slot_hit(center, cursor, 0) == first_slot_hit(center, cursor, k as int),
        decreases MAX_SLOTS - k,
    {
        let a = slot_anchor(center, k, JUNCTION_RADIUS);
        if distance_sq(cursor, a) < (SLOT_RADIUS as i128) * (SLOT_RADIUS as i128) {
            assert(hits_slot(center, k as int, cursor));
            return Some(k);
        }
        k += 1;
    }
    None
}

/// A click on the empty ground at `cursor` in node editing places a plain
/// junction there; a click on a junction does nothing.
pub fn place_junction(graph: &mut JunctionGraph, cursor: Point) -> (r: Option<usize>)
    requires
        old(graph).wf(),
        old(graph).table().len() + MAX_SLOTS <= usize::MAX,
    ensures
        final(graph).wf(),
        r is None <==> exists|i: int|
            0 <= i < old(graph).nodes().len() && is_near(
                #[trigger] old(graph).nodes()[i],
                cursor,
                JUNCTION_RADIUS as int,
            ),
        r is None ==> *final(graph) == *old(graph),
        r matches Some(id) ==> id == old(graph).nodes().len() && final(graph).nodes() == old(
            graph,
        ).nodes().push(Junction(cursor, JunctionType::Plain)),
{
    graph.add_junction(cursor, JunctionType::Plain)
}

/// The junction under `cursor`, if any: the first within its radius.
pub fn junction_under(graph: &JunctionGraph, cursor: Point) -> (r: Option<usize>)
    ensures
        r is None <==> forall|i: int|
            0 <= i < graph.nodes().len() ==> !is_near(
                #[trigger] graph.nodes()[i],
                cursor,
                JUNCTION_RADIUS as int,
            ),
        r matches Some(i) ==> i < graph.nodes().len() && is_near(
            graph.nodes()[i as int],
            cursor,
            JUNCTION_RADIUS as int,
        ) && forall|k: int|
            0 <= k < i ==> !is_near(#[trigger] graph.nodes()[k], cursor, JUNCTION_RADIUS as int),
{
    graph.junction_near(cursor, JUNCTION_RADIUS)
}

/// Dragging in node editing moves the junction under `cursor` onto it.
pub fn drag_junction(graph: &mut JunctionGraph, cursor: Point) -> (r: Option<usize>)
    requires
        old(graph).wf(),
    ensures
        final(graph).wf(),
        final(graph).table() == old(graph).table(),
        r is None <==> forall|i: int|
            0 <= i < old(graph).nodes().len() ==> !is_near(
                #[trigger] old(graph).nodes()[i],
                cursor,
                JUNCTION_RADIUS as int,
            ),
        r is None ==> *final(graph) == *old(graph),
        r matches Some(i) ==> i < old(graph).nodes().len() && is_near(
            old(graph).nodes()[i as int],
            cursor,
            JUNCTION_RADIUS as int,
        ) && final(graph).nodes() == old(graph).nodes().update(
            i as int,
            Junction(cursor, old(graph).nodes()[i as int].1),
        ),
{
    match junction_under(graph, cursor) {
        Some(i) => {
            let _ = graph.move_junction(i, cursor);
            Some(i)
        },
        None => None,
    }
}

/// A right click in node editing takes out the junction under `cursor`.
pub fn remove_junction_at(graph: &mut JunctionGraph, cursor: Point) -> (r: Option<usize>)
    requires
        old(graph).wf(),
    ensures
        final(graph).wf(),
        r is None <==> forall|i: int|
            0 <= i < old(graph).nodes().len() ==> !is_near(
                #[trigger] old(graph).nodes()[i],
                cursor,
                JUNCTION_RADIUS as int,
            ),
        r is None ==> *final(graph) == *old(graph),
        r matches Some(i) ==> i < old(graph).nodes().len() && is_near(
            old(graph).nodes()[i as int],
            cursor,
            JUNCTION_RADIUS as int,
        ) && final(graph).nodes() == old(graph).nodes().remove(i as int),
{
    match junction_under(graph, cursor) {
        Some(i) => {
            let _ = graph.remove_junction(i);
            Some(i)
        },
        None => None,
    }
}

/// A middle click in node editing cycles the role of the junction under
/// `cursor`.
pub fn cycle_junction_at(graph: &mut JunctionGraph, cursor: Point) -> (r: Option<usize>)
    requires
        old(graph).wf(),
    ensures
        final(graph).wf(),
        final(graph).table() == old(graph).table(),
        r is None <==> forall|i: int|
            0 <= i < old(graph).nodes().len() ==> !is_near(
                #[trigger] old(graph).nodes()[i],
                cursor,
                JUNCTION_RADIUS as int,
            ),
        r is None ==> *final(graph) == *old(graph),
        r matches Some(i) ==> i < old(graph).nodes().len() && final(graph).nodes()[i as int].0
            == old(graph).nodes()[i as int].0 && final(graph).nodes().len() == old(
            graph,
        ).nodes().len(),
{
    match junction_under(graph, cursor) {
        Some(i) => {
            let Junction(_, kind) = graph.junction(i);
            let _ = graph.set_junction_type(i, cycle_type(kind));
            Some(i)
        },
        None => None,
    }
}

/// What a pick of slot `flat` does, from slot `held` held and graph `g`,
/// to `held_after`, `g_after` and the answer `r`: a slot beyond the table or
/// already linked cannot be picked; with no slot held, `flat` is held; the
/// held slot again changes nothing; another slot is linked to the held one,
/// as `connect` does, and the held slot is let go.
pub open spec fn picked(
    held: Option<usize>,
    held_after: Option<usize>,
    g: JunctionGraph,
    g_after: JunctionGraph,
    flat: int,
    r: Option<Result<(), GraphError>>,
) -> bool {
    if flat >= g.table().len() || g.table()[flat] is Some {
        r is None && g_after == g && held_after == held
    } else {
        match held {
            None => r is None && g_after == g && held_after == Some(flat as usize),
            Some(h) => if h == flat {
                r is None && g_after == g && held_after == held
            } else {
                &&& held_after is None
                &&& r == Some(connect_outcome(g.table(), h as int, flat))
                &&& g_after.nodes() == g.nodes()
                &&& r == Some(Ok::<(), GraphError>(())) ==> g_after.table() == table_linked(
                    g.table(),
                    h as int,
                    flat,
                )
                &&& r != Some(Ok::<(), GraphError>(())) ==> g_after == g
            },
        }
    }
}

/// The slot picked first of a pair that the next pick links it to.
pub struct PossibleConnection(pub Option<usize>);

impl PossibleConnection {
    /// A pick of slot `flat`, as `picked` describes.
    pub fn pick_slot(&mut self, graph: &mut JunctionGraph, flat: usize) -> (r: Option<
        Result<(), GraphError>,
    >)
        requires
            old(graph).wf(),
        ensures
            final(graph).wf(),
            picked(old(self).0, final(self).0, *old(graph), *final(graph), flat as int, r),
    {
        if flat >= graph.slot_count() || graph.slot(flat).is_some() {
            return None;
        }
        match self.0 {
            None => {
                self.0 = Some(flat);
                None
            },
            Some(held) => if held == flat {
                None
            } else {
                let r = graph.connect(held, flat);
                self.0 = None;
                Some(r)
            },
        }
    }

    /// A left click at `cursor` in connection editing: off every junction
    /// (and its ring of slots) it lets go of the held slot; on a slot of the
    /// first junction it is near, it picks that slot; elsewhere on that
    /// junction it does nothing.
    pub fn click(&mut self, graph: &mut JunctionGraph, cursor: Point) -> (r: Option<
        Result<(), GraphError>,
    >)
        requires
            old(graph).wf(),
        ensures
            final(graph).wf(),
            match first_near(old(graph).nodes(), cursor, (JUNCTION_RADIUS + SLOT_RADIUS) as int, 0) {
                None => r is None && *final(graph) == *old(graph) && final(self).0 is None,
                Some(j) => match first_slot_hit(old(graph).nodes()[j].0, cursor, 0) {
                    None => r is None && *final(graph) == *old(graph) && final(self).0 == old(
                        self,
                    ).0,
                    Some(k) => picked(
                        old(self).0,
                        final(self).0,
                        *old(graph),
                        *final(graph),
                        j * MAX_SLOTS as int + k,
                        r,
                    ),
                },
            },
    {
        match graph.junction_near(cursor, JUNCTION_RADIUS + SLOT_RADIUS) {
            None => {
                self.0 = None;
                None
            },
            Some(j) => {
                let Junction(center, _) = graph.junction(j);
                match slot_hit(center, cursor) {
                    None => None,
                    Some(k) => {
                        let ghost count = graph.nodes().len();
                        let n = graph.slot_count();
                        assert(j * MAX_SLOTS + k < graph.table().len()) by (nonlinear_arith)
                            requires
                                j < count,
                                k < MAX_SLOTS,
                                graph.table().len() == count * MAX_SLOTS,
                        ;
                        self.pick_slot(graph, j * MAX_SLOTS + k)
                    },
                }
            },
        }
    }

    /// A right click at `cursor` in connection editing: lets go of the held
    /// slot and clears every link of the first junction under `cursor`.
    pub fn release_at(&mut self, graph: &mut JunctionGraph, cursor: Point) -> (r: Option<usize>)
        requires
            old(graph).wf(),
        ensures
            final(graph).wf(),
            final(self).0 is None,
            final(graph).nodes() == old(graph).nodes(),
            match first_near(old(graph).nodes(), cursor, JUNCTION_RADIUS as int, 0) {
                None => r is None && *final(graph) == *old(graph),
                Some(j) => r == Some(j as usize) && final(graph).table() == table_cleared(
                    old(graph).table(),
                    j,
                ),
            },
    {
        self.0 = None;
        match graph.junction_near(cursor, JUNCTION_RADIUS) {
            None => None,
            Some(j) => {
                let _ = graph.disconnect_all(j);
                Some(j)
            },
        }
    }
}

} // verus!
