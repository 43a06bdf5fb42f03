//! Navigation core of a maze-chase game: a junction graph with directional
//! connection slots, and the agents that travel along it.

pub mod agent_laws;
pub mod agents;
pub mod editor;
pub mod game_state;
pub mod geometry;
pub mod graph;
pub mod graph_laws;
pub mod session;
pub mod slots;
