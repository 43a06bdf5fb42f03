use pacman::agents::{choose_destination, NavAgent, NavAgentType, Steer, World};
use pacman::geometry::{isqrt, move_towards, point_distance_sq, Point};
use pacman::graph::{JunctionGraph, JunctionType};
use pacman::session::{advance, advance_agent, arrive, despawn_agents, observe, pool_for, spawn_agents};

fn pt(x: i32, y: i32) -> Point {
    Point { x, y }
}

const IDLE: Steer = Steer { x: 0, y: 0 };

/// Four junctions in a square, linked in a cycle 0-1-2-3-0.
fn square() -> JunctionGraph {
    let mut g = JunctionGraph::new();
    for &(x, y) in &[(0, 0), (100, 0), (100, 100), (0, 100)] {
        assert!(g.add_junction(pt(x, y), JunctionType::Plain).is_some());
    }
    assert_eq!(g.connect(0, 12), Ok(()));
    assert_eq!(g.connect(10, 22), Ok(()));
    assert_eq!(g.connect(20, 24), Ok(()));
    assert_eq!(g.connect(30, 2), Ok(()));
    g
}

fn world_with_player(at: Point, target: Option<usize>) -> World {
    World { player_position: Some(at), player_target: target, shadow_position: None, shadow_target: None }
}

#[test]
fn shadow_chases_player_position_not_its_target() {
    let g = square();
    let mut player = NavAgent::new(NavAgentType::Player, 2, pt(90, 20));
    player.junction_previous = Some(1);
    let shadow = NavAgent::new(NavAgentType::Shadow, 0, pt(0, 0));
    let mut agents = vec![player, shadow];
    advance(&mut agents, &g, 16, IDLE);
    assert_eq!(agents[1].junction_pool, vec![1, 3]);
    assert_eq!(agents[1].junction_target, Some(1));
    assert_eq!(agents[1].junction_previous, Some(0));

    let mut player = NavAgent::new(NavAgentType::Player, 2, pt(20, 90));
    player.junction_previous = Some(3);
    let shadow = NavAgent::new(NavAgentType::Shadow, 0, pt(0, 0));
    let mut agents = vec![player, shadow];
    advance(&mut agents, &g, 16, IDLE);
    assert_eq!(agents[1].junction_target, Some(3));
}

#[test]
fn isolated_junction_stops_the_agent() {
    let mut g = JunctionGraph::new();
    assert_eq!(g.add_junction(pt(0, 0), JunctionType::Plain), Some(0));
    let mut agents = vec![NavAgent::new(NavAgentType::Shadow, 0, pt(0, 0))];
    advance(&mut agents, &g, 16, IDLE);
    assert_eq!(agents[0].junction_target, None);
    assert!(agents[0].junction_pool.is_empty());
    advance(&mut agents, &g, 16, IDLE);
    assert_eq!(agents[0].junction_target, None);
    assert_eq!(agents[0].position, pt(0, 0));
}

#[test]
fn target_that_is_no_junction_stops_the_agent() {
    let g = square();
    let mut agents = vec![NavAgent::new(NavAgentType::Fearful, 7, pt(0, 0))];
    advance(&mut agents, &g, 16, IDLE);
    assert_eq!(agents[0].junction_target, None);
}

#[test]
fn ghost_does_not_turn_back_when_it_has_a_choice() {
    let g = square();
    assert_eq!(pool_for(&g, 0, Some(1), NavAgentType::Shadow), vec![3]);
    assert_eq!(pool_for(&g, 0, Some(1), NavAgentType::Fearful), vec![3]);
    assert_eq!(pool_for(&g, 0, Some(1), NavAgentType::Player), vec![1, 3]);
    assert_eq!(pool_for(&g, 0, None, NavAgentType::Shadow), vec![1, 3]);
}

#[test]
fn ghost_turns_back_at_a_dead_end() {
    let mut g = JunctionGraph::new();
    assert_eq!(g.add_junction(pt(0, 0), JunctionType::Plain), Some(0));
    assert_eq!(g.add_junction(pt(100, 0), JunctionType::Plain), Some(1));
    assert_eq!(g.connect(0, 12), Ok(()));
    assert_eq!(pool_for(&g, 1, Some(0), NavAgentType::Moody), vec![0]);
}

#[test]
fn arrival_recomputes_the_pool() {
    let g = square();
    let mut ghost = NavAgent::new(NavAgentType::Shadow, 0, pt(2, 2));
    ghost.junction_previous = Some(3);
    ghost.junction_pool = vec![5, 6, 7];
    let world = world_with_player(pt(100, 100), None);
    arrive(&mut ghost, &g, &world, IDLE);
    assert_eq!(ghost.junction_pool, vec![1]);
    assert_eq!(ghost.junction_target, Some(1));
    assert_eq!(ghost.junction_previous, Some(0));
    assert_eq!(ghost.position, pt(2, 2));
}

#[test]
fn shadow_and_fearful_choices_ignore_everything_but_the_player() {
    let g = square();
    let pool = vec![1, 3];
    let w1 = world_with_player(pt(100, 20), Some(2));
    let w2 = World {
        player_position: Some(pt(100, 20)),
        player_target: Some(3),
        shadow_position: Some(pt(50, 50)),
        shadow_target: Some(1),
    };
    for kind in [NavAgentType::Shadow, NavAgentType::Fearful] {
        let a = choose_destination(kind, &pool, &g, &w1, pt(0, 0), Some(0), IDLE);
        let b = choose_destination(kind, &pool, &g, &w2, pt(-500, 70), None, Steer { x: 1, y: -1 });
        assert_eq!(a, b);
    }
    assert_eq!(choose_destination(NavAgentType::Shadow, &pool, &g, &w1, pt(0, 0), None, IDLE), Some(1));
    assert_eq!(choose_destination(NavAgentType::Fearful, &pool, &g, &w1, pt(0, 0), None, IDLE), Some(3));
}

#[test]
fn equal_distances_pick_the_earliest_candidate() {
    let g = square();
    let w = world_with_player(pt(0, 0), None);
    assert_eq!(choose_destination(NavAgentType::Shadow, &vec![3, 1], &g, &w, pt(0, 0), None, IDLE), Some(3));
    assert_eq!(choose_destination(NavAgentType::Shadow, &vec![1, 3], &g, &w, pt(0, 0), None, IDLE), Some(1));
    assert_eq!(choose_destination(NavAgentType::Fearful, &vec![1, 3], &g, &w, pt(0, 0), None, IDLE), Some(1));
}

#[test]
fn sneaky_heads_for_the_players_target() {
    let g = square();
    let pool = vec![1, 3];
    let w = world_with_player(pt(5, 95), Some(1));
    assert_eq!(choose_destination(NavAgentType::Sneaky, &pool, &g, &w, pt(0, 0), None, IDLE), Some(1));
    assert_eq!(choose_destination(NavAgentType::Shadow, &pool, &g, &w, pt(0, 0), None, IDLE), Some(3));
    // with no target to read, Sneaky chases the player's position
    let w = world_with_player(pt(5, 95), None);
    assert_eq!(choose_destination(NavAgentType::Sneaky, &pool, &g, &w, pt(0, 0), None, IDLE), Some(3));
}

#[test]
fn moody_heads_ahead_of_shadows_target() {
    let g = square();
    let pool = vec![1, 3];
    // Shadow at (0,200) heading for junction 3 at (0,100): the point ahead is (0,0).
    let w = World {
        player_position: Some(pt(100, 0)),
        player_target: None,
        shadow_position: Some(pt(0, 200)),
        shadow_target: Some(3),
    };
    assert_eq!(choose_destination(NavAgentType::Moody, &vec![2, 3], &g, &w, pt(0, 0), None, IDLE), Some(3));
    // Shadow at (100,100) heading for junction 1 at (100,0): the point ahead is (100,-100).
    let w = World {
        player_position: Some(pt(0, 100)),
        player_target: None,
        shadow_position: Some(pt(100, 100)),
        shadow_target: Some(1),
    };
    assert_eq!(choose_destination(NavAgentType::Moody, &pool, &g, &w, pt(0, 0), None, IDLE), Some(1));
}

#[test]
fn pokey_chases_from_afar_and_flees_up_close() {
    let g = square();
    let pool = vec![1, 3];
    let far = world_with_player(pt(300, 0), None);
    assert_eq!(choose_destination(NavAgentType::Pokey, &pool, &g, &far, pt(0, 0), None, IDLE), Some(1));
    let near = world_with_player(pt(100, 0), None);
    assert_eq!(choose_destination(NavAgentType::Pokey, &pool, &g, &near, pt(0, 0), None, IDLE), Some(3));
    // exactly at the range counts as close
    let edge = world_with_player(pt(160, 0), None);
    assert_eq!(choose_destination(NavAgentType::Pokey, &pool, &g, &edge, pt(0, 0), None, IDLE), Some(3));
}

#[test]
fn ghosts_without_a_player_take_the_first_candidate() {
    let g = square();
    let w = World { player_position: None, player_target: None, shadow_position: None, shadow_target: None };
    for kind in [NavAgentType::Shadow, NavAgentType::Sneaky, NavAgentType::Moody, NavAgentType::Pokey, NavAgentType::Fearful] {
        assert_eq!(choose_destination(kind, &vec![3, 1], &g, &w, pt(0, 0), None, IDLE), Some(3));
    }
}

#[test]
fn empty_pool_gives_no_destination() {
    let g = square();
    let w = world_with_player(pt(0, 0), None);
    assert_eq!(choose_destination(NavAgentType::Player, &vec![], &g, &w, pt(0, 0), Some(0), IDLE), None);
    assert_eq!(choose_destination(NavAgentType::Shadow, &vec![], &g, &w, pt(0, 0), Some(0), IDLE), None);
}

#[test]
fn player_follows_its_input() {
    let g = square();
    let pool = vec![1, 3];
    let w = world_with_player(pt(0, 0), Some(0));
    let right = Steer { x: 1, y: 0 };
    let up = Steer { x: 0, y: 5 };
    assert_eq!(choose_destination(NavAgentType::Player, &pool, &g, &w, pt(0, 0), Some(0), right), Some(1));
    assert_eq!(choose_destination(NavAgentType::Player, &pool, &g, &w, pt(0, 0), Some(0), up), Some(3));
    assert_eq!(choose_destination(NavAgentType::Player, &pool, &g, &w, pt(0, 0), Some(0), IDLE), Some(0));
}

#[test]
fn granted_behaviour_takes_precedence() {
    let g = square();
    let mut agent = NavAgent::new(NavAgentType::Shadow, 0, pt(0, 0));
    agent.type_modified = Some(NavAgentType::Fearful);
    assert_eq!(agent.behaviour(), NavAgentType::Fearful);
    let w = world_with_player(pt(100, 10), None);
    arrive(&mut agent, &g, &w, IDLE);
    assert_eq!(agent.junction_target, Some(3));
}

#[test]
fn observe_reads_first_player_and_shadow() {
    let mut player = NavAgent::new(NavAgentType::Player, 2, pt(7, 8));
    player.junction_target = Some(1);
    let shadow = NavAgent::new(NavAgentType::Shadow, 3, pt(9, 10));
    let other = NavAgent::new(NavAgentType::Player, 0, pt(0, 0));
    let w = observe(&vec![NavAgent::new(NavAgentType::Pokey, 0, pt(1, 1)), player, shadow, other]);
    assert_eq!(w.player_position, Some(pt(7, 8)));
    assert_eq!(w.player_target, Some(1));
    assert_eq!(w.shadow_position, Some(pt(9, 10)));
    assert_eq!(w.shadow_target, Some(3));
    let w = observe(&vec![]);
    assert_eq!(w.player_position, None);
    assert_eq!(w.shadow_target, None);
}

#[test]
fn agents_move_at_fixed_speed() {
    let g = square();
    let mut agent = NavAgent::new(NavAgentType::Shadow, 1, pt(0, 0));
    let w = world_with_player(pt(0, 0), None);
    advance_agent(&mut agent, &g, &w, 100, IDLE);
    assert_eq!(agent.position, pt(25, 0));
    assert_eq!(agent.junction_target, Some(1));
    advance_agent(&mut agent, &g, &w, 1000, IDLE);
    assert_eq!(agent.position, pt(100, 0));
    assert_eq!(agent.junction_previous, None);
    // next tick it has arrived and picks anew
    advance_agent(&mut agent, &g, &w, 1000, IDLE);
    assert_eq!(agent.position, pt(100, 0));
    assert_eq!(agent.junction_previous, Some(1));
    assert_eq!(agent.junction_pool, vec![2, 0]);
    assert_eq!(agent.junction_target, Some(0));
}

#[test]
fn agent_without_target_stays() {
    let g = square();
    let mut agent = NavAgent::new(NavAgentType::Shadow, 1, pt(40, 40));
    agent.junction_target = None;
    advance_agent(&mut agent, &g, &world_with_player(pt(0, 0), None), 1000, IDLE);
    assert_eq!(agent.position, pt(40, 40));
    assert_eq!(agent.junction_target, None);
}

#[test]
fn tick_reads_the_world_as_it_began() {
    let g = square();
    // The player arrives at junction 1 and turns towards 0; Sneaky, after it
    // in the list, still reads the player's target as it was: junction 1.
    let player = NavAgent::new(NavAgentType::Player, 1, pt(100, 0));
    let sneaky = NavAgent::new(NavAgentType::Sneaky, 2, pt(100, 100));
    let mut agents = vec![player, sneaky];
    advance(&mut agents, &g, 16, Steer { x: -1, y: 0 });
    assert_eq!(agents[0].junction_target, Some(0));
    assert_eq!(agents[1].junction_pool, vec![3, 1]);
    assert_eq!(agents[1].junction_target, Some(1));
}

#[test]
fn spawn_places_ghosts_player_and_bonus() {
    let mut g = JunctionGraph::new();
    assert_eq!(g.add_junction(pt(0, 0), JunctionType::SpawnArea), Some(0));
    assert_eq!(g.add_junction(pt(100, 0), JunctionType::BonusItem), Some(1));
    assert_eq!(g.add_junction(pt(200, 0), JunctionType::PowerPellet), Some(2));
    assert_eq!(g.add_junction(pt(300, 0), JunctionType::BonusItem), Some(3));
    let agents = spawn_agents(&g);
    let kinds: Vec<(NavAgentType, Option<usize>)> =
        agents.iter().map(|a| (a.type_base, a.junction_target)).collect();
    assert_eq!(
        kinds,
        vec![
            (NavAgentType::Shadow, Some(0)),
            (NavAgentType::Sneaky, Some(0)),
            (NavAgentType::Moody, Some(0)),
            (NavAgentType::Pokey, Some(0)),
            (NavAgentType::Player, Some(1)),
            (NavAgentType::Fearful, Some(3)),
        ]
    );
    assert_eq!(agents[5].position, pt(300, 0));
    assert!(agents.iter().all(|a| a.junction_pool.is_empty() && a.junction_previous.is_none()));
    assert!(spawn_agents(&JunctionGraph::new()).is_empty());
}

#[test]
fn despawn_removes_every_agent() {
    let mut agents = vec![NavAgent::new(NavAgentType::Player, 0, pt(0, 0))];
    despawn_agents(&mut agents);
    assert!(agents.is_empty());
}

#[test]
fn integer_square_root() {
    assert_eq!(isqrt(0), 0);
    assert_eq!(isqrt(1), 1);
    assert_eq!(isqrt(15), 3);
    assert_eq!(isqrt(16), 4);
    assert_eq!(isqrt(u128::MAX), u64::MAX as u128);
}

#[test]
fn move_towards_steps_without_overshooting() {
    assert_eq!(point_distance_sq(pt(0, 0), pt(3, 4)), 25);
    assert_eq!(move_towards(pt(0, 0), pt(30, 40), 25), pt(15, 20));
    assert_eq!(move_towards(pt(0, 0), pt(-30, -40), 25), pt(-15, -20));
    assert_eq!(move_towards(pt(0, 0), pt(3, 4), 10), pt(3, 4));
    assert_eq!(move_towards(pt(5, 5), pt(5, 5), 0), pt(5, 5));
    assert_eq!(move_towards(pt(0, 0), pt(10, 0), 0), pt(0, 0));
}
