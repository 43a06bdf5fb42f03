use pacman::geometry::Point;
use pacman::graph::{GraphError, Junction, JunctionGraph, JunctionType};
use pacman::slots::{flat_index, junction_of, slot_angle_degrees, slot_of, MAX_SLOTS};

fn pt(x: i32, y: i32) -> Point {
    Point { x, y }
}

fn graph_with(points: &[(i32, i32)]) -> JunctionGraph {
    let mut g = JunctionGraph::new();
    for &(x, y) in points {
        assert!(g.add_junction(pt(x, y), JunctionType::Plain).is_some());
    }
    g
}

fn filled_slots(g: &JunctionGraph) -> usize {
    (0..g.slot_count()).filter(|&i| g.slot(i).is_some()).count()
}

fn assert_symmetric(g: &JunctionGraph) {
    for a in 0..g.slot_count() {
        if let Some(b) = g.slot(a) {
            assert_eq!(g.slot(b), Some(a));
            assert_ne!(junction_of(a), junction_of(b));
        }
    }
}

#[test]
fn slot_addressing_round_trips() {
    assert_eq!(MAX_SLOTS, 8);
    assert_eq!(flat_index(2, 3), 19);
    assert_eq!(junction_of(19), 2);
    assert_eq!(slot_of(19), 3);
    assert_eq!(slot_angle_degrees(0), 0);
    assert_eq!(slot_angle_degrees(3), 135);
    assert_eq!(slot_angle_degrees(7), 315);
}

#[test]
fn add_junction_allocates_an_empty_block() {
    let mut g = JunctionGraph::new();
    assert_eq!(g.add_junction(pt(0, 0), JunctionType::Plain), Some(0));
    assert_eq!(g.junction_count(), 1);
    assert_eq!(g.slot_count(), 8);
    assert_eq!(filled_slots(&g), 0);
    assert_eq!(g.add_junction(pt(40, 0), JunctionType::PowerPellet), Some(1));
    assert_eq!(g.junction(1), Junction(pt(40, 0), JunctionType::PowerPellet));
    assert_eq!(g.slot_count(), 16);
}

#[test]
fn add_junction_rejects_a_position_too_close() {
    let mut g = graph_with(&[(0, 0)]);
    assert_eq!(g.add_junction(pt(10, 0), JunctionType::Plain), None);
    assert_eq!(g.add_junction(pt(11, 11), JunctionType::Plain), None);
    assert_eq!(g.junction_count(), 1);
    assert_eq!(g.slot_count(), 8);
    // exactly at the radius is far enough
    assert_eq!(g.add_junction(pt(16, 0), JunctionType::Plain), Some(1));
}

#[test]
fn connect_links_both_ways() {
    let mut g = graph_with(&[(0, 0), (100, 0)]);
    assert_eq!(g.connect(0, 12), Ok(()));
    assert_eq!(g.slot(0), Some(12));
    assert_eq!(g.slot(12), Some(0));
    assert_eq!(filled_slots(&g), 2);
    assert_symmetric(&g);
}

#[test]
fn connect_rejects_invalid_slot() {
    let mut g = graph_with(&[(0, 0), (100, 0)]);
    assert_eq!(g.connect(0, 16), Err(GraphError::InvalidSlot));
    assert_eq!(g.connect(99, 3), Err(GraphError::InvalidSlot));
    assert_eq!(filled_slots(&g), 0);
}

#[test]
fn connect_rejects_self_connection() {
    let mut g = graph_with(&[(0, 0), (100, 0)]);
    assert_eq!(g.connect(0, 3), Err(GraphError::SelfConnection));
    assert_eq!(g.connect(9, 9), Err(GraphError::SelfConnection));
    assert_eq!(filled_slots(&g), 0);
}

#[test]
fn connect_rejects_occupied_slot() {
    let mut g = graph_with(&[(0, 0), (100, 0), (200, 0)]);
    assert_eq!(g.connect(0, 12), Ok(()));
    assert_eq!(g.connect(0, 20), Err(GraphError::SlotOccupied));
    assert_eq!(g.connect(20, 12), Err(GraphError::SlotOccupied));
    assert_eq!(g.slot(20), None);
    assert_eq!(filled_slots(&g), 2);
}

#[test]
fn disconnect_all_clears_slots_and_partners() {
    let mut g = graph_with(&[(0, 0), (100, 0), (0, 100)]);
    assert_eq!(g.connect(0, 12), Ok(()));
    assert_eq!(g.connect(2, 22), Ok(()));
    assert_eq!(g.connect(9, 16), Ok(()));
    assert_eq!(g.disconnect_all(0), Ok(()));
    for i in 0..8 {
        assert_eq!(g.slot(i), None);
    }
    assert_eq!(g.slot(12), None);
    assert_eq!(g.slot(22), None);
    // the link between the other two stays
    assert_eq!(g.slot(9), Some(16));
    assert_eq!(g.slot(16), Some(9));
    // a second time changes nothing
    assert_eq!(g.disconnect_all(0), Ok(()));
    assert_eq!(filled_slots(&g), 2);
    assert_symmetric(&g);
}

#[test]
fn disconnect_all_reports_missing_junction() {
    let mut g = graph_with(&[(0, 0)]);
    assert_eq!(g.disconnect_all(1), Err(GraphError::NotFound));
}

#[test]
fn neighbors_lists_each_junction_once() {
    let mut g = graph_with(&[(0, 0), (100, 0), (0, 100)]);
    assert_eq!(g.neighbors(0), Vec::<usize>::new());
    assert_eq!(g.connect(2, 22), Ok(()));
    assert_eq!(g.connect(0, 12), Ok(()));
    assert_eq!(g.connect(1, 13), Ok(()));
    assert_eq!(g.neighbors(0), vec![1, 2]);
    assert_eq!(g.neighbors(1), vec![0]);
    assert_eq!(g.neighbors(2), vec![0]);
}

fn four_junction_graph() -> JunctionGraph {
    let mut g = graph_with(&[(0, 0), (100, 0), (200, 0), (100, 100)]);
    assert_eq!(g.connect(0, 12), Ok(()));
    assert_eq!(g.connect(8, 20), Ok(()));
    assert_eq!(g.connect(10, 30), Ok(()));
    assert_eq!(g.connect(1, 29), Ok(()));
    assert_eq!(g.connect(19, 31), Ok(()));
    g
}

#[test]
fn remove_junction_with_three_links() {
    let mut g = four_junction_graph();
    assert_eq!(filled_slots(&g), 10);
    assert_eq!(g.remove_junction(1), Ok(()));
    assert_eq!(g.junction_count(), 3);
    assert_eq!(g.slot_count(), 24);
    // the three slots that pointed at the removed junction are empty
    assert_eq!(g.slot(0), None);
    assert_eq!(g.slot(12), None);
    assert_eq!(g.slot(22), None);
    // its own three links are gone with its block: only two links remain
    assert_eq!(filled_slots(&g), 4);
    assert_symmetric(&g);
}

#[test]
fn remove_junction_renumbers_later_junctions() {
    let mut g = four_junction_graph();
    assert_eq!(g.remove_junction(1), Ok(()));
    assert_eq!(g.junction(1), Junction(pt(200, 0), JunctionType::Plain));
    assert_eq!(g.junction(2), Junction(pt(100, 100), JunctionType::Plain));
    assert_eq!(g.slot(1), Some(21));
    assert_eq!(g.slot(21), Some(1));
    assert_eq!(g.slot(11), Some(23));
    assert_eq!(g.slot(23), Some(11));
}

#[test]
fn remove_junction_keeps_other_adjacency() {
    let mut g = four_junction_graph();
    assert_eq!(g.neighbors(0), vec![1, 3]);
    assert_eq!(g.neighbors(2), vec![3, 1]);
    assert_eq!(g.neighbors(3), vec![0, 1, 2]);
    assert_eq!(g.remove_junction(1), Ok(()));
    assert_eq!(g.neighbors(0), vec![2]);
    assert_eq!(g.neighbors(1), vec![2]);
    assert_eq!(g.neighbors(2), vec![0, 1]);
}

#[test]
fn remove_junction_reports_missing_junction() {
    let mut g = four_junction_graph();
    assert_eq!(g.remove_junction(4), Err(GraphError::NotFound));
    assert_eq!(g.junction_count(), 4);
    assert_eq!(filled_slots(&g), 10);
}

#[test]
fn remove_last_and_only_junction() {
    let mut g = graph_with(&[(0, 0)]);
    assert_eq!(g.remove_junction(0), Ok(()));
    assert_eq!(g.junction_count(), 0);
    assert_eq!(g.slot_count(), 0);
}

#[test]
fn symmetry_holds_after_mixed_operations() {
    let mut g = four_junction_graph();
    assert_eq!(g.disconnect_all(3), Ok(()));
    assert_symmetric(&g);
    assert_eq!(g.connect(2, 28), Ok(()));
    assert_symmetric(&g);
    assert_eq!(g.remove_junction(0), Ok(()));
    assert_symmetric(&g);
    assert_eq!(g.remove_junction(2), Ok(()));
    assert_symmetric(&g);
}

#[test]
fn move_and_retype_junction() {
    let mut g = graph_with(&[(0, 0), (100, 0)]);
    assert_eq!(g.connect(0, 12), Ok(()));
    assert_eq!(g.move_junction(1, pt(120, 5)), Ok(()));
    assert_eq!(g.junction(1), Junction(pt(120, 5), JunctionType::Plain));
    assert_eq!(g.set_junction_type(0, JunctionType::SpawnArea), Ok(()));
    assert_eq!(g.junction(0), Junction(pt(0, 0), JunctionType::SpawnArea));
    assert_eq!(g.slot(0), Some(12));
    assert_eq!(g.move_junction(2, pt(0, 0)), Err(GraphError::NotFound));
    assert_eq!(g.set_junction_type(2, JunctionType::Plain), Err(GraphError::NotFound));
}
