use doodlai::assets::id::TextureId;
use doodlai::game::{
    action_for_output, eval_step, facing_after_inputs, platform_input_index, player_texture, FacingDirection,
    GameStep, PlayerAction, AGENT_IN, GAME_STEPS,
};

#[test]
fn facing_follows_inputs() {
    assert_eq!(FacingDirection::default(), FacingDirection::Right);
    assert_eq!(facing_after_inputs(FacingDirection::Left, true, false), FacingDirection::Right);
    assert_eq!(facing_after_inputs(FacingDirection::Right, false, true), FacingDirection::Left);
    assert_eq!(facing_after_inputs(FacingDirection::Right, true, true), FacingDirection::Left);
    assert_eq!(facing_after_inputs(FacingDirection::Left, false, false), FacingDirection::Left);
}

#[test]
fn network_output_to_action() {
    assert_eq!(action_for_output(0), PlayerAction::Stay);
    assert_eq!(action_for_output(1), PlayerAction::MoveLeft);
    assert_eq!(action_for_output(2), PlayerAction::MoveRight);
    assert_eq!(action_for_output(7), PlayerAction::Stay);
}

#[test]
fn player_sprite_from_direction() {
    assert_eq!(player_texture(-1), TextureId::DoodleLeft);
    assert_eq!(player_texture(0), TextureId::DoodleRight);
    assert_eq!(player_texture(1), TextureId::DoodleRight);
}

#[test]
fn platform_inputs_follow_player_inputs() {
    assert_eq!(platform_input_index(0), 5);
    assert_eq!(platform_input_index(4), 13);
    assert!(platform_input_index(4) + 1 < AGENT_IN);
}

#[test]
fn evaluation_steps() {
    assert_eq!(eval_step(0, false), GameStep::Continue(1));
    assert_eq!(eval_step(5, true), GameStep::Finish { penalized_steps: 0 });
    assert_eq!(eval_step(10, true), GameStep::Finish { penalized_steps: 0 });
    assert_eq!(eval_step(11, true), GameStep::Finish { penalized_steps: 39 });
    assert_eq!(eval_step(GAME_STEPS, false), GameStep::Finish { penalized_steps: 0 });
}

#[test]
fn evaluation_always_ends() {
    let mut i = 0;
    let mut steps = 0;
    loop {
        steps += 1;
        match eval_step(i, false) {
            GameStep::Continue(next) => i = next,
            GameStep::Finish { penalized_steps } => {
                assert_eq!(penalized_steps, 0);
                break;
            }
        }
    }
    assert_eq!(steps, GAME_STEPS + 1);
}
