//! The phases of the program, and the decisions that move between them.

use vstd::prelude::*;

verus! {

#[derive(Clone, Copy, Debug, PartialEq, Eq, Structural)]
pub enum Menu {
    Title,
    Settings,
}

#[derive(Clone, Copy, Debug, PartialEq, Eq, Structural)]
pub enum Editor {
    /// Starting a new level.
    New,
    /// Adding, moving, removing junctions and setting their roles.
    Nodes,
    /// Linking junction slots.
    Connections,
    /// Storing the level before leaving the editor.
    Saving,
}

#[derive(Clone, Copy, Debug, PartialEq, Eq, Structural)]
pub enum Playing {
    /// The level is being set up and its agents spawned.
    New,
    /// The level is shown before play starts.
    Ready,
    /// Agents move.
    Running,
    GameOver,
    Complete,
}

#[derive(Clone, Copy, Debug, PartialEq, Eq, Structural)]
pub enum GameState {
    Menu(Menu),
    Editor(Editor),
    Playing(Playing),
}

/// Marks a thing that lives only while the program is in the given state.
#[derive(Clone, Copy, Debug, PartialEq, Eq, Structural)]
pub struct DestroyWhenNotThisState(pub GameState);

pub fn in_editor(state: GameState) -> (r: bool)
    ensures
        r == state is Editor,
{
    match state {
        GameState::Editor(_) => true,
        _ => false,
    }
}

/// Whether a thing with `marker` goes away in state `current`.
pub fn should_despawn(marker: DestroyWhenNotThisState, current: GameState) -> (r: bool)
    ensures
        r == (marker.0 != current),
{
    marker.0 != current
}

/// Where, among the first `n` marked things, those stand that go away in
/// state `current`, in order.
pub open spec fn stale_prefix(marks: Seq<DestroyWhenNotThisState>, current: GameState, n: int) -> Seq<
    usize,
>
    decreases n,
{
    if n <= 0 {
        Seq::empty()
    } else {
        let before = stale_prefix(marks, current, n - 1);
        if marks[n - 1].0 != current {
            before.push((n - 1) as usize)
        } else {
            before
        }
    }
}

/// Where, among the marked things `marks`, those stand that go away in
/// state `current`, in order.
pub fn clean_components(marks: &Vec<DestroyWhenNotThisState>, current: GameState) -> (r: Vec<usize>)
    ensures
        r@ == stale_prefix(marks@, current, marks@.len() as int),
{
    let mut out: Vec<usize> = Vec::new();
    let mut i: usize = 0;
    while i < marks.len()
        invariant
            i <= marks@.len(),
            out@ == stale_prefix(marks@, current, i as int),
        decreases marks@.len() - i,
    {
        if should_despawn(marks[i], current) {
            out.push(i);
        }
        i += 1;
    }
    out
}

/// The state asked for by the number keys pressed in one frame: 1 opens the
/// node editor, 2 sets up a new level, 3 runs it; the highest key wins.
pub fn requested_state(one: bool, two: bool, three: bool) -> (r: Option<GameState>)
    ensures
        r == (if three {
            Some(GameState::Playing(Playing::Running))
        } else if two {
            Some(GameState::Playing(Playing::New))
        } else if one {
            Some(GameState::Editor(Editor::Nodes))
        } else {
            None
        }),
{
    if three {
        Some(GameState::Playing(Playing::Running))
    } else if two {
        Some(GameState::Playing(Playing::New))
    } else if one {
        Some(GameState::Editor(Editor::Nodes))
    } else {
        None
    }
}

/// The editor to switch to on Tab: node and connection editing alternate;
/// from any other state there is nothing to switch to.
pub fn editor_after_tab(state: GameState) -> (r: Option<GameState>)
    ensures
        state == GameState::Editor(Editor::Nodes) ==> r == Some(
            GameState::Editor(Editor::Connections),
        ),
        state == GameState::Editor(Editor::Connections) ==> r == Some(
            GameState::Editor(Editor::Nodes),
        ),
        state != GameState::Editor(Editor::Nodes) && state != GameState::Editor(
            Editor::Connections,
        ) ==> r is None,
{
    match state {
        GameState::Editor(Editor::Nodes) => Some(GameState::Editor(Editor::Connections)),
        GameState::Editor(Editor::Connections) => Some(GameState::Editor(Editor::Nodes)),
        _ => None,
    }
}

} // verus!
