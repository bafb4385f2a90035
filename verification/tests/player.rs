use iwm_runtime_core::player::{
    jump_after_move, next_player_step, player_step_outcome, PlayerJumpState, PlayerOutcome,
};
use iwm_runtime_core::tick::ButtonState;

fn button(pressed: bool, just_pressed: bool, just_released: bool) -> ButtonState {
    ButtonState { pressed, just_pressed, just_released }
}

#[test]
fn a_grounded_press_starts_and_holds_the_jump() {
    let idle = PlayerJumpState::default();
    let d = next_player_step(idle, true, false, button(true, true, false), true, true, 4, false, true);
    assert_eq!(d.direction, -1);
    assert_eq!(d.facing_left, Some(true));
    assert!(d.start_jump && d.hold_jump && !d.cut_jump);
    assert_eq!(d.state, PlayerJumpState { active: true, hold_frames: 1, cut_applied: false, grounded_last_tick: true });
    let d2 = next_player_step(d.state, true, true, button(true, false, false), false, true, 4, true, true);
    assert_eq!((d2.direction, d2.facing_left), (0, None));
    assert!(!d2.start_jump && d2.hold_jump);
    assert_eq!(d2.state.hold_frames, 2);
}

#[test]
fn holding_stops_at_the_limit_and_release_cuts_once() {
    let held = PlayerJumpState { active: true, hold_frames: 4, cut_applied: false, grounded_last_tick: false };
    let d = next_player_step(held, false, true, button(true, false, false), false, true, 4, true, true);
    assert!(!d.hold_jump);
    assert_eq!(d.facing_left, Some(false));
    let cut = next_player_step(held, false, false, button(false, false, true), false, true, 4, true, true);
    assert!(cut.cut_jump && cut.state.cut_applied);
    let again = next_player_step(cut.state, false, false, button(false, false, true), false, true, 4, true, true);
    assert!(!again.cut_jump);
    let falling = next_player_step(held, false, false, button(false, false, true), false, true, 4, false, true);
    assert!(!falling.cut_jump);
}

#[test]
fn without_the_builtin_jump_only_standing_is_recorded() {
    let held = PlayerJumpState { active: true, hold_frames: 1, cut_applied: false, grounded_last_tick: false };
    let d = next_player_step(held, false, false, button(true, true, false), true, false, 4, true, true);
    assert!(!d.start_jump && !d.hold_jump && !d.cut_jump);
    assert_eq!(d.state, PlayerJumpState { grounded_last_tick: true, ..held });
    assert_eq!(jump_after_move(held, false, true, true), held);
}

#[test]
fn bumping_and_landing_end_the_jump() {
    let held = PlayerJumpState { active: true, hold_frames: 2, cut_applied: false, grounded_last_tick: false };
    assert_eq!(
        jump_after_move(held, true, true, false),
        PlayerJumpState { active: false, hold_frames: 2, cut_applied: true, grounded_last_tick: false }
    );
    assert_eq!(
        jump_after_move(held, true, true, true),
        PlayerJumpState { active: false, hold_frames: 0, cut_applied: false, grounded_last_tick: true }
    );
}

#[test]
fn hazards_kill_and_leaving_the_room_moves_on() {
    assert_eq!(player_step_outcome(true, true, &vec![5]), PlayerOutcome::Died);
    assert_eq!(player_step_outcome(false, true, &vec![5, 6]), PlayerOutcome::Transition { room_id: 5 });
    assert_eq!(player_step_outcome(false, true, &vec![]), PlayerOutcome::Stays);
    assert_eq!(player_step_outcome(false, false, &vec![5]), PlayerOutcome::Stays);
}
