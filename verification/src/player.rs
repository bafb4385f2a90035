//! The player's built-in movement decisions: running, the jump and its hold
//! and cut, what landing or bumping does to the jump, and what a step ends
//! in. The motion itself is arithmetic on the runtime's numbers, done by the
//! caller as each decision says.

use vstd::prelude::*;

use crate::tick::ButtonState;

verus! {

/// The state of the player's jump: whether a jump is under way, for how many
/// frames it has been held, whether it has been cut short, and whether the
/// player stood on a solid at the end of the last step.
#[derive(Clone, Copy, Debug, Default, PartialEq, Eq)]
pub struct PlayerJumpState {
    pub active: bool,
    pub hold_frames: u32,
    pub cut_applied: bool,
    pub grounded_last_tick: bool,
}

/// What the start of a player step decides: the run direction (`-1` left,
/// `1` right, `0` neither or both), the facing where it changes, whether a
/// jump starts (vertical speed set to minus the jump speed), is held (vertical
/// speed at least as fast upward as the jump speed), or is cut (vertical
/// speed at most as fast upward as the cut speed), and the jump state after.
#[derive(Clone, Copy, Debug, PartialEq, Eq)]
pub struct PlayerDecision {
    pub direction: i32,
    pub facing_left: Option<bool>,
    pub start_jump: bool,
    pub hold_jump: bool,
    pub cut_jump: bool,
    pub state: PlayerJumpState,
}

/// The decisions at the start of a player step. `standing` says the player
/// stands on a solid; `rising` that it moves upward now; `jump_speed_positive`
/// that the jump speed is above zero, so a started jump rises; `hold_limit`
/// is the number of frames a jump can be held; `apply_jump` is false where
/// the game's own code owns the jump.
pub open spec fn spec_next_player_step(
    state: PlayerJumpState,
    left: bool,
    right: bool,
    jump: ButtonState,
    standing: bool,
    apply_jump: bool,
    hold_limit: u32,
    rising: bool,
    jump_speed_positive: bool,
) -> PlayerDecision {
    let direction: i32 = if left && !right {
        -1i32
    } else if right && !left {
        1i32
    } else {
        0i32
    };
    let facing_left = if left && !right {
        Some(true)
    } else if right && !left {
        Some(false)
    } else {
        None
    };
    let s0 = PlayerJumpState { grounded_last_tick: standing, ..state };
    let start = apply_jump && jump.just_pressed && standing;
    let s1 = if start {
        PlayerJumpState { active: true, hold_frames: 0, cut_applied: false, ..s0 }
    } else {
        s0
    };
    let rising1 = if start {
        jump_speed_positive
    } else {
        rising
    };
    let hold = apply_jump && s1.active && jump.pressed && s1.hold_frames < hold_limit && rising1;
    let s2 = if hold {
        PlayerJumpState { hold_frames: (s1.hold_frames + 1) as u32, ..s1 }
    } else {
        s1
    };
    let cut = apply_jump && jump.just_released && s2.active && rising1 && !s2.cut_applied;
    let s3 = if cut {
        PlayerJumpState { cut_applied: true, ..s2 }
    } else {
        s2
    };
    PlayerDecision { direction, facing_left, start_jump: start, hold_jump: hold, cut_jump: cut, state: s3 }
}

/// The decisions at the start of a player step (see
/// [`spec_next_player_step`]).
pub fn next_player_step(
    state: PlayerJumpState,
    left: bool,
    right: bool,
    jump: ButtonState,
    standing: bool,
    apply_jump: bool,
    hold_limit: u32,
    rising: bool,
    jump_speed_positive: bool,
) -> (r: PlayerDecision)
    ensures
        r == spec_next_player_step(state, left, right, jump, standing, apply_jump, hold_limit, rising, jump_speed_positive),
{
    let direction: i32 = if left && !right {
        -1
    } else if right && !left {
        1
    } else {
        0
    };
    let facing_left = if left && !right {
        Some(true)
    } else if right && !left {
        Some(false)
    } else {
        None
    };
    let mut s = PlayerJumpState { grounded_last_tick: standing, ..state };
    let start = apply_jump && jump.just_pressed && standing;
    if start {
        s.active = true;
        s.hold_frames = 0;
        s.cut_applied = false;
    }
    let rising_now = if start {
        jump_speed_positive
    } else {
        rising
    };
    let hold = apply_jump && s.active && jump.pressed && s.hold_frames < hold_limit && rising_now;
    if hold {
        s.hold_frames = s.hold_frames + 1;
    }
    let cut = apply_jump && jump.just_released && s.active && rising_now && !s.cut_applied;
    if cut {
        s.cut_applied = true;
    }
    PlayerDecision { direction, facing_left, start_jump: start, hold_jump: hold, cut_jump: cut, state: s }
}

/// The jump state after the player has moved: with the built-in jump, a
/// vertical bump ends the jump and counts it as cut, and standing on a solid
/// afterwards resets it; without it nothing changes.
pub open spec fn spec_jump_after_move(
    state: PlayerJumpState,
    apply_jump: bool,
    vertical_blocked: bool,
    grounded_after: bool,
) -> PlayerJumpState {
    if !apply_jump {
        state
    } else {
        let s1 = if vertical_blocked {
            PlayerJumpState { active: false, cut_applied: true, ..state }
        } else {
            state
        };
        let s2 = if grounded_after {
            PlayerJumpState { active: false, hold_frames: 0, cut_applied: false, ..s1 }
        } else {
            s1
        };
        PlayerJumpState { grounded_last_tick: grounded_after, ..s2 }
    }
}

/// The jump state after the player has moved (see [`spec_jump_after_move`]).
pub fn jump_after_move(state: PlayerJumpState, apply_jump: bool, vertical_blocked: bool, grounded_after: bool) -> (r:
    PlayerJumpState)
    ensures
        r == spec_jump_after_move(state, apply_jump, vertical_blocked, grounded_after),
{
    if !apply_jump {
        return state;
    }
    let mut s = state;
    if vertical_blocked {
        s.active = false;
        s.cut_applied = true;
    }
    if grounded_after {
        s.active = false;
        s.hold_frames = 0;
        s.cut_applied = false;
    }
    s.grounded_last_tick = grounded_after;
    s
}

/// What a player step ends in.
#[derive(Clone, Copy, Debug, PartialEq, Eq)]
pub enum PlayerOutcome {
    /// The player touched a hazard: it dies and waits for a restart.
    Died,
    /// The player left the room: move to room `room_id`.
    Transition { room_id: usize },
    /// Nothing more happens.
    Stays,
}

/// What a player step ends in: death where it touches a hazard; else, where
/// it has left the room and the room has transition targets, a move to the
/// first of them; else nothing.
pub open spec fn spec_player_step_outcome(hit_hazard: bool, out_of_bounds: bool, transition_targets: Seq<usize>) -> PlayerOutcome {
    if hit_hazard {
        PlayerOutcome::Died
    } else if out_of_bounds && transition_targets.len() > 0 {
        PlayerOutcome::Transition { room_id: transition_targets[0] }
    } else {
        PlayerOutcome::Stays
    }
}

/// What a player step ends in (see [`spec_player_step_outcome`]).
pub fn player_step_outcome(hit_hazard: bool, out_of_bounds: bool, transition_targets: &Vec<usize>) -> (r: PlayerOutcome)
    ensures
        r == spec_player_step_outcome(hit_hazard, out_of_bounds, transition_targets@),
{
    if hit_hazard {
        PlayerOutcome::Died
    } else if out_of_bounds && transition_targets.len() > 0 {
        PlayerOutcome::Transition { room_id: transition_targets[0] }
    } else {
        PlayerOutcome::Stays
    }
}

/// A jump is never held longer than its limit: a step that starts within
/// the limit ends within it, and only a step that starts a jump resets it.
pub proof fn law_jump_hold_is_bounded(
    state: PlayerJumpState,
    left: bool,
    right: bool,
    jump: ButtonState,
    standing: bool,
    apply_jump: bool,
    hold_limit: u32,
    rising: bool,
    jump_speed_positive: bool,
)
    requires
        state.hold_frames <= hold_limit,
    ensures
        ({
            let d = spec_next_player_step(state, left, right, jump, standing, apply_jump, hold_limit, rising, jump_speed_positive);
            &&& d.state.hold_frames <= hold_limit
            &&& d.state.hold_frames <= state.hold_frames + 1 || d.start_jump
            &&& d.hold_jump ==> d.state.active
        }),
{
}

/// A jump is cut at most once: a step cuts only a jump not cut yet, and
/// leaves it cut; without the built-in jump the jump state is left alone but
/// for whether the player stands.
pub proof fn law_jump_cut_at_most_once(
    state: PlayerJumpState,
    left: bool,
    right: bool,
    jump: ButtonState,
    standing: bool,
    apply_jump: bool,
    hold_limit: u32,
    rising: bool,
    jump_speed_positive: bool,
)
    ensures
        ({
            let d = spec_next_player_step(state, left, right, jump, standing, apply_jump, hold_limit, rising, jump_speed_positive);
            &&& d.cut_jump ==> d.state.cut_applied && (!state.cut_applied || d.start_jump)
            &&& !apply_jump ==> d.state == (PlayerJumpState { grounded_last_tick: standing, ..state })
                && !d.start_jump && !d.hold_jump && !d.cut_jump
        }),
{
}

/// Landing ends the jump: with the built-in jump, a player that stands on a
/// solid after moving has no jump under way, nothing held and nothing cut.
pub proof fn law_landing_resets_the_jump(state: PlayerJumpState, vertical_blocked: bool)
    ensures
        spec_jump_after_move(state, true, vertical_blocked, true) == (PlayerJumpState {
            active: false,
            hold_frames: 0,
            cut_applied: false,
            grounded_last_tick: true,
        }),
{
}

/// A jump starts only where the built-in jump applies, the jump button was
/// just pressed and the player stands on a solid, and then always; a started
/// jump is under way and held for at most one frame, and is cut only by a
/// release in the same step; a jump is
/// held only while the button is pressed, and cut only when it was just
/// released; the run direction follows the one arrow held alone.
pub proof fn law_jumps_start_only_from_the_ground(
    state: PlayerJumpState,
    left: bool,
    right: bool,
    jump: ButtonState,
    standing: bool,
    apply_jump: bool,
    hold_limit: u32,
    rising: bool,
    jump_speed_positive: bool,
)
    ensures
        ({
            let d = spec_next_player_step(state, left, right, jump, standing, apply_jump, hold_limit, rising, jump_speed_positive);
            &&& d.start_jump <==> (apply_jump && jump.just_pressed && standing)
            &&& d.start_jump ==> d.state.active && d.state.hold_frames <= 1
            &&& d.start_jump && d.state.cut_applied ==> d.cut_jump
            &&& !standing ==> !d.start_jump && d.state.active == state.active && d.state.hold_frames >= state.hold_frames
            &&& d.hold_jump ==> apply_jump && jump.pressed && d.state.hold_frames <= hold_limit
            &&& d.hold_jump ==> d.state.hold_frames == (if d.start_jump { 1 } else { state.hold_frames + 1 })
            &&& !d.hold_jump && !d.start_jump ==> d.state.hold_frames == state.hold_frames
            &&& d.cut_jump ==> apply_jump && jump.just_released
            &&& d.state.grounded_last_tick == standing
            &&& (d.direction == -1 <==> left && !right)
            &&& (d.direction == 1 <==> right && !left)
            &&& (d.direction == 0 <==> left == right)
            &&& (d.facing_left == Some(true) <==> left && !right)
            &&& (d.facing_left == Some(false) <==> right && !left)
        }),
{
}

/// A step ends in death exactly when the player touches a hazard, and in a
/// move only when it left the room, to the room's first transition target.
pub proof fn law_hazards_kill_before_leaving(hit_hazard: bool, out_of_bounds: bool, transition_targets: Seq<usize>)
    ensures
        (spec_player_step_outcome(hit_hazard, out_of_bounds, transition_targets) == PlayerOutcome::Died) <==> hit_hazard,
        spec_player_step_outcome(hit_hazard, out_of_bounds, transition_targets) is Transition ==> !hit_hazard
            && out_of_bounds && transition_targets.len() > 0,
        !hit_hazard && out_of_bounds && transition_targets.len() > 0 ==> spec_player_step_outcome(
            hit_hazard,
            out_of_bounds,
            transition_targets,
        ) == (PlayerOutcome::Transition { room_id: transition_targets[0] }),
{
}

} // verus!
