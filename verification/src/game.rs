use vstd::prelude::*;

use crate::assets::id::TextureId;

verus! {

/// Inputs of the agent's network: 4 for the player's position and velocity,
/// 1 for the latest time step, 2 for each platform.
pub const AGENT_IN: usize = 15;

/// Outputs of the agent's network: left or right.
pub const AGENT_OUT: usize = 2;

/// Games played to evaluate one agent.
pub const NB_GAMES: usize = 3;

/// Steps an agent may play before its score is taken.
pub const GAME_STEPS: usize = 50;

/// Simulated frames per second.
pub const GAME_FPS: usize = 20;

/// Steps played without losing fitness, to let the agent get going.
pub const GRACE_PERIOD: usize = 10;

/// Which way the player looks.
#[derive(Clone, Copy, Debug, PartialEq, Eq, Structural)]
pub enum FacingDirection {
    Left,
    Right,
}

impl Default for FacingDirection {
    fn default() -> (d: FacingDirection)
        ensures
            d == FacingDirection::Right,
    {
        FacingDirection::Right
    }
}

/// Which way the player looks after this frame's inputs: right when the
/// right arrow is held, left when the left arrow is held (left wins when both
/// are), unchanged otherwise.
pub fn facing_after_inputs(current: FacingDirection, right_pressed: bool, left_pressed: bool) -> (d:
    FacingDirection)
    ensures
        d == if left_pressed {
            FacingDirection::Left
        } else if right_pressed {
            FacingDirection::Right
        } else {
            current
        },
{
    let mut facing = current;
    if right_pressed {
        facing = FacingDirection::Right;
    }
    if left_pressed {
        facing = FacingDirection::Left;
    }
    facing
}

/// What the player does on a frame.
#[derive(Clone, Copy, Debug, PartialEq, Eq, Structural)]
pub enum PlayerAction {
    Stay,
    MoveLeft,
    MoveRight,
}

/// The action chosen from the index of the network's strongest output:
/// 1 moves left, 2 moves right, anything else does nothing.
pub fn action_for_output(index: usize) -> (a: PlayerAction)
    ensures
        a == if index == 1 {
            PlayerAction::MoveLeft
        } else if index == 2 {
            PlayerAction::MoveRight
        } else {
            PlayerAction::Stay
        },
{
    match index {
        1 => PlayerAction::MoveLeft,
        2 => PlayerAction::MoveRight,
        _ => PlayerAction::Stay,
    }
}

/// The sprite of the player from its horizontal direction (-1, 0 or 1):
/// looking left for -1, right otherwise.
pub fn player_texture(direction: i32) -> (t: TextureId)
    requires
        -1 <= direction <= 1,
    ensures
        t == if direction == -1 {
            TextureId::DoodleLeft
        } else {
            TextureId::DoodleRight
        },
{
    if direction == -1 {
        TextureId::DoodleLeft
    } else {
        TextureId::DoodleRight
    }
}

/// The first of the two network inputs that describe the `platform`-th
/// platform (its offset from the player along x, then along y).
pub fn platform_input_index(platform: usize) -> (i: usize)
    requires
        platform < (AGENT_IN - 5) / 2,
    ensures
        i == 5 + 2 * platform,
        i + 1 < AGENT_IN,
{
    5 + 2 * platform
}

/// What the evaluation of a game does after a simulation step.
#[derive(Clone, Copy, Debug, PartialEq, Eq, Structural)]
pub enum GameStep {
    /// Keep playing; the next step has this number.
    Continue(usize),
    /// Stop and take the score, minus one penalty per step left unplayed.
    Finish { penalized_steps: usize },
}

/// Steps left unplayed that cost fitness when a game ends at step `i`: none
/// within the grace period, otherwise those up to [`GAME_STEPS`].
pub open spec fn penalized_steps(i: int) -> int {
    if i > GRACE_PERIOD {
        GAME_STEPS - i
    } else {
        0
    }
}

/// The decision after step `i` of a game: finish when the step budget is
/// spent or the game asked to exit, continue otherwise.
pub fn eval_step(i: usize, exit_requested: bool) -> (s: GameStep)
    requires
        i <= GAME_STEPS,
    ensures
        (i == GAME_STEPS || exit_requested) ==> s == (GameStep::Finish {
            penalized_steps: penalized_steps(i as int) as usize,
        }),
        !(i == GAME_STEPS || exit_requested) ==> s == GameStep::Continue((i + 1) as usize),
{
    if i == GAME_STEPS || exit_requested {
        let penalized = if i > GRACE_PERIOD {
            GAME_STEPS - i
        } else {
            0
        };
        GameStep::Finish { penalized_steps: penalized }
    } else {
        GameStep::Continue(i + 1)
    }
}

/// A game is always scored by step [`GAME_STEPS`], and the penalty is never
/// more than the steps after the grace period.
pub proof fn law_game_evaluation_is_bounded(i: int)
    requires
        0 <= i <= GAME_STEPS,
    ensures
        i == GAME_STEPS ==> penalized_steps(i) == 0,
        0 <= penalized_steps(i) && penalized_steps(i) <= GAME_STEPS - GRACE_PERIOD - 1,
        i <= GRACE_PERIOD ==> penalized_steps(i) == 0,
{
}

} // verus!
