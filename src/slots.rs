//! Flat addressing of connection slots: junction `j`, direction `k` lives at
//! index `j * MAX_SLOTS + k` of the slot table.

use vstd::prelude::*;

verus! {

/// Number of directional slots around every junction, one per 45 degrees.
pub const MAX_SLOTS: usize = 8;

/// The flat index of direction `slot` of junction `junction`.
pub open spec fn flat_index_spec(junction: int, slot: int) -> int {
    junction * MAX_SLOTS as int + slot
}

/// The junction that owns the flat slot index `flat`.
pub open spec fn junction_of_spec(flat: int) -> int {
    flat / MAX_SLOTS as int
}

/// The direction of the flat slot index `flat` within its junction.
pub open spec fn slot_of_spec(flat: int) -> int {
    flat % MAX_SLOTS as int
}

/// Slot `a` lies in the block of junction `x` exactly when `x * MAX_SLOTS <=
/// a < (x + 1) * MAX_SLOTS`; blocks before and after are ordered likewise.
pub proof fn lemma_block_bounds(a: int, x: int)
    requires
        0 <= a,
        0 <= x,
    ensures
        (junction_of_spec(a) == x) <==> (x * MAX_SLOTS as int <= a < x * MAX_SLOTS as int
            + MAX_SLOTS as int),
        (junction_of_spec(a) < x) <==> (a < x * MAX_SLOTS as int),
        (junction_of_spec(a) > x) <==> (a >= x * MAX_SLOTS as int + MAX_SLOTS as int),
        0 <= junction_of_spec(a),
        a == MAX_SLOTS as int * junction_of_spec(a) + slot_of_spec(a),
        0 <= slot_of_spec(a) < MAX_SLOTS as int,
{
    let q = a / 8;
    let m = a % 8;
    assert(a == 8 * q + m && 0 <= m < 8);
    if q < x {
        assert(q * 8 + 8 <= x * 8);
    }
    if q > x {
        assert(q * 8 >= x * 8 + 8);
    }
}

pub fn flat_index(junction: usize, slot: usize) -> (r: usize)
    requires
        slot < MAX_SLOTS,
        junction * MAX_SLOTS + slot <= usize::MAX,
    ensures
        r == flat_index_spec(junction as int, slot as int),
        junction_of_spec(r as int) == junction,
        slot_of_spec(r as int) == slot,
{
    junction * MAX_SLOTS + slot
}

pub fn junction_of(flat: usize) -> (r: usize)
    ensures
        r == junction_of_spec(flat as int),
{
    flat / MAX_SLOTS
}

pub fn slot_of(flat: usize) -> (r: usize)
    ensures
        r == slot_of_spec(flat as int),
        r < MAX_SLOTS,
{
    flat % MAX_SLOTS
}

/// Angle in degrees of direction `slot`, measured counter-clockwise: each
/// direction is a further `360 / MAX_SLOTS` degrees round.
pub fn slot_angle_degrees(slot: usize) -> (r: u32)
    requires
        slot < MAX_SLOTS,
    ensures
        r == slot * 45,
{
    (slot * (360 / MAX_SLOTS)) as u32
}

} // verus!
