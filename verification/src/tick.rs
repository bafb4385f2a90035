//! The order of work in one tick of the runtime, as a machine from what was
//! observed to the next action, and the keyboard events a tick dispatches.

use vstd::prelude::*;

use crate::context::StepExecutionResult;
use crate::event_dispatch::RuntimeEventSelector;

verus! {

/// The state of a button as the host reports it.
#[derive(Clone, Copy, Debug, PartialEq, Eq)]
pub struct ButtonState {
    pub pressed: bool,
    pub just_pressed: bool,
    pub just_released: bool,
}

/// What the runtime observed after the last action of a tick: whether a room
/// is loaded and has no instances, whether a room change, reset or restart is
/// pending, what the step events reported (read after `ExecuteStepEvents`),
/// and whether the restart button was just pressed when the tick read input.
#[derive(Clone, Copy, Debug, PartialEq, Eq)]
pub struct TickObservation {
    pub has_room: bool,
    pub room_empty: bool,
    pub pending_scene_change: bool,
    pub step: StepExecutionResult,
    pub restart_just_pressed: bool,
}

/// One piece of work of a tick.
#[derive(Clone, Copy, Debug, PartialEq, Eq)]
pub enum TickAction {
    /// No room is loaded: the runtime enters its error state and the tick fails.
    Fail,
    /// Read the buttons, count the tick, and mark the runtime running.
    ReadInput,
    ApplyPendingRoomChange,
    RunDeferredBootstrapScripts,
    ProcessTimelines,
    /// Warn that the room has no instances.
    RecordEmptyRoom,
    ExecuteStepEvents,
    SyncViewsFromGlobals,
    /// Move the player; `apply_jump` is false where a script owns the jump.
    StepPlayer { apply_jump: bool },
    StepNonPlayers,
    DispatchOutsideRoom,
    DispatchCollisions,
    DetectHazards,
    ProcessAlarms,
    /// Run the keyboard events of [`keyboard_event_selectors`].
    DispatchKeyboard,
    /// Ask for the room to restart.
    RequestRestart,
    AdvanceAnimations,
    /// Submit the frame; the tick is over.
    Render,
    /// The tick is over: nothing is left to do.
    Done,
}

/// Where a tick is.
#[derive(Clone, Copy, Debug, PartialEq, Eq)]
pub enum TickStage {
    Begin,
    AfterInput,
    AfterFirstRoomChange,
    AfterBootstrap,
    BeforeTimelines,
    AfterTimelines,
    CheckRoom,
    AfterStepEvents,
    AfterViewSync { step: StepExecutionResult },
    RenderNow,
    NonPlayers,
    Outside,
    Collisions,
    Hazards,
    Alarms,
    Keyboard,
    Restart,
    AfterRestart,
    Animations,
    AfterAnimations,
    FinalRender,
    Finished,
}

/// The work after the timelines have run, once any pending scene change has
/// been applied: fail without a room, warn of an empty room and go on after
/// the steps, else run the step events.
pub open spec fn spec_check_room(seen: TickObservation) -> (TickStage, TickAction) {
    if !seen.has_room {
        (TickStage::Finished, TickAction::Fail)
    } else if seen.room_empty {
        (TickStage::Outside, TickAction::RecordEmptyRoom)
    } else {
        (TickStage::AfterStepEvents, TickAction::ExecuteStepEvents)
    }
}

/// The work after the views are synced: where the step events were cut short
/// the pending change is applied and the frame drawn at once; else the player
/// moves where the step events left its motion alone or a script took over
/// the jump, then the other instances move.
pub open spec fn spec_after_view_sync(step: StepExecutionResult) -> (TickStage, TickAction) {
    if step.interrupted {
        (TickStage::RenderNow, TickAction::ApplyPendingRoomChange)
    } else if !step.player_motion_changed || step.player_jump_owned_by_script {
        (TickStage::NonPlayers, TickAction::StepPlayer { apply_jump: !step.player_jump_owned_by_script })
    } else {
        (TickStage::Outside, TickAction::StepNonPlayers)
    }
}

/// The work after the restart check: apply a pending scene change, then
/// advance the animations.
pub open spec fn spec_after_restart(seen: TickObservation) -> (TickStage, TickAction) {
    if seen.pending_scene_change {
        (TickStage::Animations, TickAction::ApplyPendingRoomChange)
    } else {
        (TickStage::AfterAnimations, TickAction::AdvanceAnimations)
    }
}

/// The next stage and action of a tick at `stage`, given what was observed
/// after the last action.
pub open spec fn spec_next_tick_step(stage: TickStage, seen: TickObservation) -> (TickStage, TickAction) {
    match stage {
        TickStage::Begin => if !seen.has_room {
            (TickStage::Finished, TickAction::Fail)
        } else {
            (TickStage::AfterInput, TickAction::ReadInput)
        },
        TickStage::AfterInput => (TickStage::AfterFirstRoomChange, TickAction::ApplyPendingRoomChange),
        TickStage::AfterFirstRoomChange => (TickStage::AfterBootstrap, TickAction::RunDeferredBootstrapScripts),
        TickStage::AfterBootstrap => if seen.pending_scene_change {
            (TickStage::BeforeTimelines, TickAction::ApplyPendingRoomChange)
        } else {
            (TickStage::AfterTimelines, TickAction::ProcessTimelines)
        },
        TickStage::BeforeTimelines => (TickStage::AfterTimelines, TickAction::ProcessTimelines),
        TickStage::AfterTimelines => if seen.pending_scene_change {
            (TickStage::CheckRoom, TickAction::ApplyPendingRoomChange)
        } else {
            spec_check_room(seen)
        },
        TickStage::CheckRoom => spec_check_room(seen),
        TickStage::AfterStepEvents => (TickStage::AfterViewSync { step: seen.step }, TickAction::SyncViewsFromGlobals),
        TickStage::AfterViewSync { step } => spec_after_view_sync(step),
        TickStage::RenderNow => (TickStage::Finished, TickAction::Render),
        TickStage::NonPlayers => (TickStage::Outside, TickAction::StepNonPlayers),
        TickStage::Outside => (TickStage::Collisions, TickAction::DispatchOutsideRoom),
        TickStage::Collisions => (TickStage::Hazards, TickAction::DispatchCollisions),
        TickStage::Hazards => (TickStage::Alarms, TickAction::DetectHazards),
        TickStage::Alarms => (TickStage::Keyboard, TickAction::ProcessAlarms),
        TickStage::Keyboard => (TickStage::Restart, TickAction::DispatchKeyboard),
        TickStage::Restart => if seen.restart_just_pressed && !seen.pending_scene_change {
            (TickStage::AfterRestart, TickAction::RequestRestart)
        } else {
            spec_after_restart(seen)
        },
        TickStage::AfterRestart => spec_after_restart(seen),
        TickStage::Animations => (TickStage::AfterAnimations, TickAction::AdvanceAnimations),
        TickStage::AfterAnimations => if seen.pending_scene_change {
            (TickStage::FinalRender, TickAction::ApplyPendingRoomChange)
        } else {
            (TickStage::Finished, TickAction::Render)
        },
        TickStage::FinalRender => (TickStage::Finished, TickAction::Render),
        TickStage::Finished => (TickStage::Finished, TickAction::Done),
    }
}

/// The next stage and action of a tick at `stage` (see
/// [`spec_next_tick_step`]).
pub fn next_tick_step(stage: TickStage, seen: TickObservation) -> (r: (TickStage, TickAction))
    ensures
        r == spec_next_tick_step(stage, seen),
{
    match stage {
        TickStage::Begin => if !seen.has_room {
            (TickStage::Finished, TickAction::Fail)
        } else {
            (TickStage::AfterInput, TickAction::ReadInput)
        },
        TickStage::AfterInput => (TickStage::AfterFirstRoomChange, TickAction::ApplyPendingRoomChange),
        TickStage::AfterFirstRoomChange => (TickStage::AfterBootstrap, TickAction::RunDeferredBootstrapScripts),
        TickStage::AfterBootstrap => if seen.pending_scene_change {
            (TickStage::BeforeTimelines, TickAction::ApplyPendingRoomChange)
        } else {
            (TickStage::AfterTimelines, TickAction::ProcessTimelines)
        },
        TickStage::BeforeTimelines => (TickStage::AfterTimelines, TickAction::ProcessTimelines),
        TickStage::AfterTimelines => if seen.pending_scene_change {
            (TickStage::CheckRoom, TickAction::ApplyPendingRoomChange)
        } else {
            check_room(seen)
        },
        TickStage::CheckRoom => check_room(seen),
        TickStage::AfterStepEvents => (TickStage::AfterViewSync { step: seen.step }, TickAction::SyncViewsFromGlobals),
        TickStage::AfterViewSync { step } => after_view_sync(step),
        TickStage::RenderNow => (TickStage::Finished, TickAction::Render),
        TickStage::NonPlayers => (TickStage::Outside, TickAction::StepNonPlayers),
        TickStage::Outside => (TickStage::Collisions, TickAction::DispatchOutsideRoom),
        TickStage::Collisions => (TickStage::Hazards, TickAction::DispatchCollisions),
        TickStage::Hazards => (TickStage::Alarms, TickAction::DetectHazards),
        TickStage::Alarms => (TickStage::Keyboard, TickAction::ProcessAlarms),
        TickStage::Keyboard => (TickStage::Restart, TickAction::DispatchKeyboard),
        TickStage::Restart => if seen.restart_just_pressed && !seen.pending_scene_change {
            (TickStage::AfterRestart, TickAction::RequestRestart)
        } else {
            after_restart(seen)
        },
        TickStage::AfterRestart => after_restart(seen),
        TickStage::Animations => (TickStage::AfterAnimations, TickAction::AdvanceAnimations),
        TickStage::AfterAnimations => if seen.pending_scene_change {
            (TickStage::FinalRender, TickAction::ApplyPendingRoomChange)
        } else {
            (TickStage::Finished, TickAction::Render)
        },
        TickStage::FinalRender => (TickStage::Finished, TickAction::Render),
        TickStage::Finished => (TickStage::Finished, TickAction::Done),
    }
}

fn check_room(seen: TickObservation) -> (r: (TickStage, TickAction))
    ensures
        r == spec_check_room(seen),
{
    if !seen.has_room {
        (TickStage::Finished, TickAction::Fail)
    } else if seen.room_empty {
        (TickStage::Outside, TickAction::RecordEmptyRoom)
    } else {
        (TickStage::AfterStepEvents, TickAction::ExecuteStepEvents)
    }
}

fn after_view_sync(step: StepExecutionResult) -> (r: (TickStage, TickAction))
    ensures
        r == spec_after_view_sync(step),
{
    if step.interrupted {
        (TickStage::RenderNow, TickAction::ApplyPendingRoomChange)
    } else if !step.player_motion_changed || step.player_jump_owned_by_script {
        (TickStage::NonPlayers, TickAction::StepPlayer { apply_jump: !step.player_jump_owned_by_script })
    } else {
        (TickStage::Outside, TickAction::StepNonPlayers)
    }
}

fn after_restart(seen: TickObservation) -> (r: (TickStage, TickAction))
    ensures
        r == spec_after_restart(seen),
{
    if seen.pending_scene_change {
        (TickStage::Animations, TickAction::ApplyPendingRoomChange)
    } else {
        (TickStage::AfterAnimations, TickAction::AdvanceAnimations)
    }
}

// ----------------------------------------------------------------------------
// Runs of a tick

/// How far a stage is from the end of a tick: every step of an unfinished
/// tick brings it closer.
pub open spec fn spec_stage_rank(stage: TickStage) -> nat {
    match stage {
        TickStage::Begin => 22,
        TickStage::AfterInput => 21,
        TickStage::AfterFirstRoomChange => 20,
        TickStage::AfterBootstrap => 19,
        TickStage::BeforeTimelines => 18,
        TickStage::AfterTimelines => 17,
        TickStage::CheckRoom => 16,
        TickStage::AfterStepEvents => 15,
        TickStage::AfterViewSync { .. } => 14,
        TickStage::NonPlayers => 13,
        TickStage::Outside => 12,
        TickStage::Collisions => 11,
        TickStage::Hazards => 10,
        TickStage::Alarms => 9,
        TickStage::Keyboard => 8,
        TickStage::Restart => 7,
        TickStage::AfterRestart => 6,
        TickStage::Animations => 5,
        TickStage::AfterAnimations => 4,
        TickStage::RenderNow => 3,
        TickStage::FinalRender => 2,
        TickStage::Finished => 0,
    }
}

/// The actions of a tick run from `stage`, each step given the next of
/// `observations`, until the tick is over or the observations run out.
pub open spec fn spec_tick_actions(stage: TickStage, observations: Seq<TickObservation>) -> Seq<TickAction>
    decreases observations.len(),
{
    if observations.len() == 0 || stage == TickStage::Finished {
        Seq::empty()
    } else {
        let (next, action) = spec_next_tick_step(stage, observations[0]);
        seq![action] + spec_tick_actions(next, observations.drop_first())
    }
}

/// Every step of an unfinished tick moves closer to its end, and only the
/// last step, which fails or submits the frame, finishes it: a tick takes at
/// most 22 steps, and ends with exactly one `Fail` or `Render`.
pub proof fn law_tick_steps_toward_its_end(stage: TickStage, seen: TickObservation)
    requires
        stage != TickStage::Finished,
    ensures
        spec_stage_rank(spec_next_tick_step(stage, seen).0) < spec_stage_rank(stage),
        (spec_next_tick_step(stage, seen).0 == TickStage::Finished) <==> (spec_next_tick_step(stage, seen).1
            == TickAction::Fail || spec_next_tick_step(stage, seen).1 == TickAction::Render),
        spec_next_tick_step(stage, seen).1 != TickAction::Done,
{
}

/// A tick reads the input once, at its start, and only where a room is
/// loaded; without a room it fails at once.
pub proof fn law_tick_reads_input_first(stage: TickStage, seen: TickObservation)
    ensures
        (spec_next_tick_step(stage, seen).1 == TickAction::ReadInput) <==> (stage == TickStage::Begin && seen.has_room),
        stage == TickStage::Begin && !seen.has_room ==> spec_next_tick_step(stage, seen) == (
            TickStage::Finished,
            TickAction::Fail,
        ),
{
}

/// A pending scene change is applied before the next phase: after the
/// bootstrap scripts, after the timelines, after the restart check and after
/// the animations, a pending change is what comes next.
pub proof fn law_pending_scene_changes_apply_first(stage: TickStage, seen: TickObservation)
    requires
        seen.pending_scene_change,
        stage == TickStage::AfterBootstrap || stage == TickStage::AfterTimelines || stage == TickStage::Restart
            || stage == TickStage::AfterRestart || stage == TickStage::AfterAnimations,
    ensures
        spec_next_tick_step(stage, seen).1 == TickAction::ApplyPendingRoomChange,
{
}

/// Ticks are deterministic: the same observations from the same stage give
/// the same actions, and a tick given as many observations as it has steps
/// left ends finished.
pub proof fn law_tick_is_deterministic(stage: TickStage, a: Seq<TickObservation>, b: Seq<TickObservation>)
    requires
        a == b,
    ensures
        spec_tick_actions(stage, a) == spec_tick_actions(stage, b),
        a.len() >= spec_stage_rank(stage) ==> spec_tick_ends(stage, a),
    decreases a.len(),
{
    if a.len() >= spec_stage_rank(stage) && stage != TickStage::Finished {
        law_tick_steps_toward_its_end(stage, a[0]);
        let next = spec_next_tick_step(stage, a[0]).0;
        law_tick_is_deterministic(next, a.drop_first(), b.drop_first());
    }
}

/// Run from `stage` on `observations`, the tick reaches its end.
pub open spec fn spec_tick_ends(stage: TickStage, observations: Seq<TickObservation>) -> bool
    decreases observations.len(),
{
    if stage == TickStage::Finished {
        true
    } else if observations.len() == 0 {
        false
    } else {
        spec_tick_ends(spec_next_tick_step(stage, observations[0]).0, observations.drop_first())
    }
}

// ----------------------------------------------------------------------------
// Keyboard events

/// The keyboard events of a tick, from the keyboard buttons the host reports
/// (key code and state, in its order): a held event for each pressed key, then
/// a pressed event for each key just pressed, then a released event for each
/// key just released.
pub open spec fn spec_keyboard_event_selectors(keys: Seq<(u16, ButtonState)>) -> Seq<RuntimeEventSelector> {
    spec_held_selectors(keys) + spec_pressed_selectors(keys) + spec_released_selectors(keys)
}

/// A held event for each pressed key, in order.
pub open spec fn spec_held_selectors(keys: Seq<(u16, ButtonState)>) -> Seq<RuntimeEventSelector>
    decreases keys.len(),
{
    if keys.len() == 0 {
        Seq::empty()
    } else {
        let rest = spec_held_selectors(keys.drop_last());
        if keys.last().1.pressed {
            rest.push(RuntimeEventSelector::KeyboardHeld(keys.last().0))
        } else {
            rest
        }
    }
}

/// A pressed event for each key just pressed, in order.
pub open spec fn spec_pressed_selectors(keys: Seq<(u16, ButtonState)>) -> Seq<RuntimeEventSelector>
    decreases keys.len(),
{
    if keys.len() == 0 {
        Seq::empty()
    } else {
        let rest = spec_pressed_selectors(keys.drop_last());
        if keys.last().1.just_pressed {
            rest.push(RuntimeEventSelector::KeyboardPressed(keys.last().0))
        } else {
            rest
        }
    }
}

/// A released event for each key just released, in order.
pub open spec fn spec_released_selectors(keys: Seq<(u16, ButtonState)>) -> Seq<RuntimeEventSelector>
    decreases keys.len(),
{
    if keys.len() == 0 {
        Seq::empty()
    } else {
        let rest = spec_released_selectors(keys.drop_last());
        if keys.last().1.just_released {
            rest.push(RuntimeEventSelector::KeyboardReleased(keys.last().0))
        } else {
            rest
        }
    }
}

/// The keyboard events of a tick (see [`spec_keyboard_event_selectors`]).
pub fn keyboard_event_selectors(keys: &Vec<(u16, ButtonState)>) -> (r: Vec<RuntimeEventSelector>)
    ensures
        r@ == spec_keyboard_event_selectors(keys@),
{
    let mut out: Vec<RuntimeEventSelector> = Vec::new();
    let mut i: usize = 0;
    while i < keys.len()
        invariant
            i <= keys@.len(),
            out@ == spec_held_selectors(keys@.take(i as int)),
        decreases keys@.len() - i,
    {
        assert(keys@.take(i + 1).drop_last() =~= keys@.take(i as int));
        if keys[i].1.pressed {
            out.push(RuntimeEventSelector::KeyboardHeld(keys[i].0));
        }
        i = i + 1;
    }
    assert(keys@.take(i as int) =~= keys@);
    let ghost held = out@;
    let mut i: usize = 0;
    while i < keys.len()
        invariant
            i <= keys@.len(),
            out@ == held + spec_pressed_selectors(keys@.take(i as int)),
        decreases keys@.len() - i,
    {
        assert(keys@.take(i + 1).drop_last() =~= keys@.take(i as int));
        if keys[i].1.just_pressed {
            out.push(RuntimeEventSelector::KeyboardPressed(keys[i].0));
        }
        i = i + 1;
    }
    assert(keys@.take(i as int) =~= keys@);
    let ghost pressed = out@;
    let mut i: usize = 0;
    while i < keys.len()
        invariant
            i <= keys@.len(),
            out@ == pressed + spec_released_selectors(keys@.take(i as int)),
        decreases keys@.len() - i,
    {
        assert(keys@.take(i + 1).drop_last() =~= keys@.take(i as int));
        if keys[i].1.just_released {
            out.push(RuntimeEventSelector::KeyboardReleased(keys[i].0));
        }
        i = i + 1;
    }
    assert(keys@.take(i as int) =~= keys@);
    out
}

/// A tick in which a room with instances is loaded and nothing asks for a
/// scene change runs every phase once, in order: input, the room change
/// check, the bootstrap scripts, the timelines, the step events, the view
/// sync, the player (where the step events left its motion alone or own its
/// jump, with the built-in jump exactly where they do not own it), the other
/// instances, outside-room events, collisions, hazards, alarms, keyboard
/// events, animations, and finally the frame.
pub proof fn law_quiet_ticks_run_every_phase(observations: Seq<TickObservation>)
    requires
        observations.len() >= 16,
        forall|i: int|
            0 <= i < observations.len() ==> (#[trigger] observations[i]).has_room && !observations[i].room_empty
                && !observations[i].pending_scene_change && !observations[i].restart_just_pressed,
        !observations[5].step.interrupted,
    ensures
        ({
            let step = observations[5].step;
            let moves_player = !step.player_motion_changed || step.player_jump_owned_by_script;
            let head = seq![
                TickAction::ReadInput,
                TickAction::ApplyPendingRoomChange,
                TickAction::RunDeferredBootstrapScripts,
                TickAction::ProcessTimelines,
                TickAction::ExecuteStepEvents,
                TickAction::SyncViewsFromGlobals,
            ];
            let tail = seq![
                TickAction::StepNonPlayers,
                TickAction::DispatchOutsideRoom,
                TickAction::DispatchCollisions,
                TickAction::DetectHazards,
                TickAction::ProcessAlarms,
                TickAction::DispatchKeyboard,
                TickAction::AdvanceAnimations,
                TickAction::Render,
            ];
            spec_tick_actions(TickStage::Begin, observations) == if moves_player {
                head + seq![TickAction::StepPlayer { apply_jump: !step.player_jump_owned_by_script }] + tail
            } else {
                head + tail
            }
        }),
{
    let o = observations;
    let step = o[5].step;
    if !step.player_motion_changed || step.player_jump_owned_by_script {
        assert(spec_tick_actions(TickStage::Finished, o.skip(15)) == Seq::<TickAction>::empty());
        assert(o.skip(14)[0] == o[14]);
        assert(o.skip(14).drop_first() =~= o.skip(15));
        assert(spec_next_tick_step(TickStage::AfterAnimations, o[14]) == (TickStage::Finished, TickAction::Render));
        assert(spec_tick_actions(TickStage::AfterAnimations, o.skip(14)) == seq![TickAction::Render] + spec_tick_actions(TickStage::Finished, o.skip(15)));
        assert(o.skip(13)[0] == o[13]);
        assert(o.skip(13).drop_first() =~= o.skip(14));
        assert(spec_next_tick_step(TickStage::Restart, o[13]) == (TickStage::AfterAnimations, TickAction::AdvanceAnimations));
        assert(spec_tick_actions(TickStage::Restart, o.skip(13)) == seq![TickAction::AdvanceAnimations] + spec_tick_actions(TickStage::AfterAnimations, o.skip(14)));
        assert(o.skip(12)[0] == o[12]);
        assert(o.skip(12).drop_first() =~= o.skip(13));
        assert(spec_next_tick_step(TickStage::Keyboard, o[12]) == (TickStage::Restart, TickAction::DispatchKeyboard));
        assert(spec_tick_actions(TickStage::Keyboard, o.skip(12)) == seq![TickAction::DispatchKeyboard] + spec_tick_actions(TickStage::Restart, o.skip(13)));
        assert(o.skip(11)[0] == o[11]);
        assert(o.skip(11).drop_first() =~= o.skip(12));
        assert(spec_next_tick_step(TickStage::Alarms, o[11]) == (TickStage::Keyboard, TickAction::ProcessAlarms));
        assert(spec_tick_actions(TickStage::Alarms, o.skip(11)) == seq![TickAction::ProcessAlarms] + spec_tick_actions(TickStage::Keyboard, o.skip(12)));
        assert(o.skip(10)[0] == o[10]);
        assert(o.skip(10).drop_first() =~= o.skip(11));
        assert(spec_next_tick_step(TickStage::Hazards, o[10]) == (TickStage::Alarms, TickAction::DetectHazards));
        assert(spec_tick_actions(TickStage::Hazards, o.skip(10)) == seq![TickAction::DetectHazards] + spec_tick_actions(TickStage::Alarms, o.skip(11)));
        assert(o.skip(9)[0] == o[9]);
        assert(o.skip(9).drop_first() =~= o.skip(10));
        assert(spec_next_tick_step(TickStage::Collisions, o[9]) == (TickStage::Hazards, TickAction::DispatchCollisions));
        assert(spec_tick_actions(TickStage::Collisions, o.skip(9)) == seq![TickAction::DispatchCollisions] + spec_tick_actions(TickStage::Hazards, o.skip(10)));
        assert(o.skip(8)[0] == o[8]);
        assert(o.skip(8).drop_first() =~= o.skip(9));
        assert(spec_next_tick_step(TickStage::Outside, o[8]) == (TickStage::Collisions, TickAction::DispatchOutsideRoom));
        assert(spec_tick_actions(TickStage::Outside, o.skip(8)) == seq![TickAction::DispatchOutsideRoom] + spec_tick_actions(TickStage::Collisions, o.skip(9)));
        assert(o.skip(7)[0] == o[7]);
        assert(o.skip(7).drop_first() =~= o.skip(8));
        assert(spec_next_tick_step(TickStage::NonPlayers, o[7]) == (TickStage::Outside, TickAction::StepNonPlayers));
        assert(spec_tick_actions(TickStage::NonPlayers, o.skip(7)) == seq![TickAction::StepNonPlayers] + spec_tick_actions(TickStage::Outside, o.skip(8)));
        assert(o.skip(6)[0] == o[6]);
        assert(o.skip(6).drop_first() =~= o.skip(7));
        assert(spec_next_tick_step(TickStage::AfterViewSync { step }, o[6]) == (TickStage::NonPlayers, TickAction::StepPlayer { apply_jump: !step.player_jump_owned_by_script }));
        assert(spec_tick_actions(TickStage::AfterViewSync { step }, o.skip(6)) == seq![TickAction::StepPlayer { apply_jump: !step.player_jump_owned_by_script }] + spec_tick_actions(TickStage::NonPlayers, o.skip(7)));
        assert(o.skip(5)[0] == o[5]);
        assert(o.skip(5).drop_first() =~= o.skip(6));
        assert(spec_next_tick_step(TickStage::AfterStepEvents, o[5]) == (TickStage::AfterViewSync { step }, TickAction::SyncViewsFromGlobals));
        assert(spec_tick_actions(TickStage::AfterStepEvents, o.skip(5)) == seq![TickAction::SyncViewsFromGlobals] + spec_tick_actions(TickStage::AfterViewSync { step }, o.skip(6)));
        assert(o.skip(4)[0] == o[4]);
        assert(o.skip(4).drop_first() =~= o.skip(5));
        assert(spec_next_tick_step(TickStage::AfterTimelines, o[4]) == (TickStage::AfterStepEvents, TickAction::ExecuteStepEvents));
        assert(spec_tick_actions(TickStage::AfterTimelines, o.skip(4)) == seq![TickAction::ExecuteStepEvents] + spec_tick_actions(TickStage::AfterStepEvents, o.skip(5)));
        assert(o.skip(3)[0] == o[3]);
        assert(o.skip(3).drop_first() =~= o.skip(4));
        assert(spec_next_tick_step(TickStage::AfterBootstrap, o[3]) == (TickStage::AfterTimelines, TickAction::ProcessTimelines));
        assert(spec_tick_actions(TickStage::AfterBootstrap, o.skip(3)) == seq![TickAction::ProcessTimelines] + spec_tick_actions(TickStage::AfterTimelines, o.skip(4)));
        assert(o.skip(2)[0] == o[2]);
        assert(o.skip(2).drop_first() =~= o.skip(3));
        assert(spec_next_tick_step(TickStage::AfterFirstRoomChange, o[2]) == (TickStage::AfterBootstrap, TickAction::RunDeferredBootstrapScripts));
        assert(spec_tick_actions(TickStage::AfterFirstRoomChange, o.skip(2)) == seq![TickAction::RunDeferredBootstrapScripts] + spec_tick_actions(TickStage::AfterBootstrap, o.skip(3)));
        assert(o.skip(1)[0] == o[1]);
        assert(o.skip(1).drop_first() =~= o.skip(2));
        assert(spec_next_tick_step(TickStage::AfterInput, o[1]) == (TickStage::AfterFirstRoomChange, TickAction::ApplyPendingRoomChange));
        assert(spec_tick_actions(TickStage::AfterInput, o.skip(1)) == seq![TickAction::ApplyPendingRoomChange] + spec_tick_actions(TickStage::AfterFirstRoomChange, o.skip(2)));
        assert(o.skip(0)[0] == o[0]);
        assert(o.skip(0).drop_first() =~= o.skip(1));
        assert(spec_next_tick_step(TickStage::Begin, o[0]) == (TickStage::AfterInput, TickAction::ReadInput));
        assert(spec_tick_actions(TickStage::Begin, o.skip(0)) == seq![TickAction::ReadInput] + spec_tick_actions(TickStage::AfterInput, o.skip(1)));
        assert(o.skip(0) =~= o);
    } else {
        assert(spec_tick_actions(TickStage::Finished, o.skip(14)) == Seq::<TickAction>::empty());
        assert(o.skip(13)[0] == o[13]);
        assert(o.skip(13).drop_first() =~= o.skip(14));
        assert(spec_next_tick_step(TickStage::AfterAnimations, o[13]) == (TickStage::Finished, TickAction::Render));
        assert(spec_tick_actions(TickStage::AfterAnimations, o.skip(13)) == seq![TickAction::Render] + spec_tick_actions(TickStage::Finished, o.skip(14)));
        assert(o.skip(12)[0] == o[12]);
        assert(o.skip(12).drop_first() =~= o.skip(13));
        assert(spec_next_tick_step(TickStage::Restart, o[12]) == (TickStage::AfterAnimations, TickAction::AdvanceAnimations));
        assert(spec_tick_actions(TickStage::Restart, o.skip(12)) == seq![TickAction::AdvanceAnimations] + spec_tick_actions(TickStage::AfterAnimations, o.skip(13)));
        assert(o.skip(11)[0] == o[11]);
        assert(o.skip(11).drop_first() =~= o.skip(12));
        assert(spec_next_tick_step(TickStage::Keyboard, o[11]) == (TickStage::Restart, TickAction::DispatchKeyboard));
        assert(spec_tick_actions(TickStage::Keyboard, o.skip(11)) == seq![TickAction::DispatchKeyboard] + spec_tick_actions(TickStage::Restart, o.skip(12)));
        assert(o.skip(10)[0] == o[10]);
        assert(o.skip(10).drop_first() =~= o.skip(11));
        assert(spec_next_tick_step(TickStage::Alarms, o[10]) == (TickStage::Keyboard, TickAction::ProcessAlarms));
        assert(spec_tick_actions(TickStage::Alarms, o.skip(10)) == seq![TickAction::ProcessAlarms] + spec_tick_actions(TickStage::Keyboard, o.skip(11)));
        assert(o.skip(9)[0] == o[9]);
        assert(o.skip(9).drop_first() =~= o.skip(10));
        assert(spec_next_tick_step(TickStage::Hazards, o[9]) == (TickStage::Alarms, TickAction::DetectHazards));
        assert(spec_tick_actions(TickStage::Hazards, o.skip(9)) == seq![TickAction::DetectHazards] + spec_tick_actions(TickStage::Alarms, o.skip(10)));
        assert(o.skip(8)[0] == o[8]);
        assert(o.skip(8).drop_first() =~= o.skip(9));
        assert(spec_next_tick_step(TickStage::Collisions, o[8]) == (TickStage::Hazards, TickAction::DispatchCollisions));
        assert(spec_tick_actions(TickStage::Collisions, o.skip(8)) == seq![TickAction::DispatchCollisions] + spec_tick_actions(TickStage::Hazards, o.skip(9)));
        assert(o.skip(7)[0] == o[7]);
        assert(o.skip(7).drop_first() =~= o.skip(8));
        assert(spec_next_tick_step(TickStage::Outside, o[7]) == (TickStage::Collisions, TickAction::DispatchOutsideRoom));
        assert(spec_tick_actions(TickStage::Outside, o.skip(7)) == seq![TickAction::DispatchOutsideRoom] + spec_tick_actions(TickStage::Collisions, o.skip(8)));
        assert(o.skip(6)[0] == o[6]);
        assert(o.skip(6).drop_first() =~= o.skip(7));
        assert(spec_next_tick_step(TickStage::AfterViewSync { step }, o[6]) == (TickStage::Outside, TickAction::StepNonPlayers));
        assert(spec_tick_actions(TickStage::AfterViewSync { step }, o.skip(6)) == seq![TickAction::StepNonPlayers] + spec_tick_actions(TickStage::Outside, o.skip(7)));
        assert(o.skip(5)[0] == o[5]);
        assert(o.skip(5).drop_first() =~= o.skip(6));
        assert(spec_next_tick_step(TickStage::AfterStepEvents, o[5]) == (TickStage::AfterViewSync { step }, TickAction::SyncViewsFromGlobals));
        assert(spec_tick_actions(TickStage::AfterStepEvents, o.skip(5)) == seq![TickAction::SyncViewsFromGlobals] + spec_tick_actions(TickStage::AfterViewSync { step }, o.skip(6)));
        assert(o.skip(4)[0] == o[4]);
        assert(o.skip(4).drop_first() =~= o.skip(5));
        assert(spec_next_tick_step(TickStage::AfterTimelines, o[4]) == (TickStage::AfterStepEvents, TickAction::ExecuteStepEvents));
        assert(spec_tick_actions(TickStage::AfterTimelines, o.skip(4)) == seq![TickAction::ExecuteStepEvents] + spec_tick_actions(TickStage::AfterStepEvents, o.skip(5)));
        assert(o.skip(3)[0] == o[3]);
        assert(o.skip(3).drop_first() =~= o.skip(4));
        assert(spec_next_tick_step(TickStage::AfterBootstrap, o[3]) == (TickStage::AfterTimelines, TickAction::ProcessTimelines));
        assert(spec_tick_actions(TickStage::AfterBootstrap, o.skip(3)) == seq![TickAction::ProcessTimelines] + spec_tick_actions(TickStage::AfterTimelines, o.skip(4)));
        assert(o.skip(2)[0] == o[2]);
        assert(o.skip(2).drop_first() =~= o.skip(3));
        assert(spec_next_tick_step(TickStage::AfterFirstRoomChange, o[2]) == (TickStage::AfterBootstrap, TickAction::RunDeferredBootstrapScripts));
        assert(spec_tick_actions(TickStage::AfterFirstRoomChange, o.skip(2)) == seq![TickAction::RunDeferredBootstrapScripts] + spec_tick_actions(TickStage::AfterBootstrap, o.skip(3)));
        assert(o.skip(1)[0] == o[1]);
        assert(o.skip(1).drop_first() =~= o.skip(2));
        assert(spec_next_tick_step(TickStage::AfterInput, o[1]) == (TickStage::AfterFirstRoomChange, TickAction::ApplyPendingRoomChange));
        assert(spec_tick_actions(TickStage::AfterInput, o.skip(1)) == seq![TickAction::ApplyPendingRoomChange] + spec_tick_actions(TickStage::AfterFirstRoomChange, o.skip(2)));
        assert(o.skip(0)[0] == o[0]);
        assert(o.skip(0).drop_first() =~= o.skip(1));
        assert(spec_next_tick_step(TickStage::Begin, o[0]) == (TickStage::AfterInput, TickAction::ReadInput));
        assert(spec_tick_actions(TickStage::Begin, o.skip(0)) == seq![TickAction::ReadInput] + spec_tick_actions(TickStage::AfterInput, o.skip(1)));
        assert(o.skip(0) =~= o);
    }
}

proof fn lemma_held_members(keys: Seq<(u16, ButtonState)>, key: u16)
    ensures
        spec_held_selectors(keys).contains(RuntimeEventSelector::KeyboardHeld(key)) <==> exists|i: int|
            0 <= i < keys.len() && (#[trigger] keys[i]).0 == key && keys[i].1.pressed,
        forall|j: int|
            0 <= j < spec_held_selectors(keys).len() ==> (#[trigger] spec_held_selectors(keys)[j]) is KeyboardHeld,
    decreases keys.len(),
{
    if keys.len() > 0 {
        let prev = keys.drop_last();
        lemma_held_members(prev, key);
        let rest = spec_held_selectors(prev);
        let full = spec_held_selectors(keys);
        let last = keys.last();
        if exists|i: int| 0 <= i < prev.len() && (#[trigger] prev[i]).0 == key && prev[i].1.pressed {
            let i = choose|i: int| 0 <= i < prev.len() && (#[trigger] prev[i]).0 == key && prev[i].1.pressed;
            assert(keys[i] == prev[i]);
        }
        if exists|i: int| 0 <= i < keys.len() && (#[trigger] keys[i]).0 == key && keys[i].1.pressed {
            let i = choose|i: int| 0 <= i < keys.len() && (#[trigger] keys[i]).0 == key && keys[i].1.pressed;
            if i < prev.len() {
                assert(prev[i] == keys[i]);
            }
        }
        if last.1.pressed {
            let pushed = rest.push(RuntimeEventSelector::KeyboardHeld(last.0));
            assert(full == pushed);
            if pushed.contains(RuntimeEventSelector::KeyboardHeld(key)) && !rest.contains(RuntimeEventSelector::KeyboardHeld(key)) {
                let p = choose|p: int| 0 <= p < pushed.len() && pushed[p] == RuntimeEventSelector::KeyboardHeld(key);
                if p < rest.len() {
                    assert(rest[p] == pushed[p]);
                }
            }
            if rest.contains(RuntimeEventSelector::KeyboardHeld(key)) {
                let p = choose|p: int| 0 <= p < rest.len() && rest[p] == RuntimeEventSelector::KeyboardHeld(key);
                assert(pushed[p] == rest[p]);
            }
            if last.0 == key {
                assert(pushed[rest.len() as int] == RuntimeEventSelector::KeyboardHeld(key));
            }
            assert forall|j: int| 0 <= j < pushed.len() implies (#[trigger] pushed[j]) is KeyboardHeld by {
                if j < rest.len() {
                    assert(pushed[j] == rest[j]);
                }
            }
        }
    }
}

proof fn lemma_pressed_members(keys: Seq<(u16, ButtonState)>, key: u16)
    ensures
        spec_pressed_selectors(keys).contains(RuntimeEventSelector::KeyboardPressed(key)) <==> exists|i: int|
            0 <= i < keys.len() && (#[trigger] keys[i]).0 == key && keys[i].1.just_pressed,
        forall|j: int|
            0 <= j < spec_pressed_selectors(keys).len() ==> (#[trigger] spec_pressed_selectors(keys)[j]) is KeyboardPressed,
    decreases keys.len(),
{
    if keys.len() > 0 {
        let prev = keys.drop_last();
        lemma_pressed_members(prev, key);
        let rest = spec_pressed_selectors(prev);
        let full = spec_pressed_selectors(keys);
        let last = keys.last();
        if exists|i: int| 0 <= i < prev.len() && (#[trigger] prev[i]).0 == key && prev[i].1.just_pressed {
            let i = choose|i: int| 0 <= i < prev.len() && (#[trigger] prev[i]).0 == key && prev[i].1.just_pressed;
            assert(keys[i] == prev[i]);
        }
        if exists|i: int| 0 <= i < keys.len() && (#[trigger] keys[i]).0 == key && keys[i].1.just_pressed {
            let i = choose|i: int| 0 <= i < keys.len() && (#[trigger] keys[i]).0 == key && keys[i].1.just_pressed;
            if i < prev.len() {
                assert(prev[i] == keys[i]);
            }
        }
        if last.1.just_pressed {
            let pushed = rest.push(RuntimeEventSelector::KeyboardPressed(last.0));
            assert(full == pushed);
            if pushed.contains(RuntimeEventSelector::KeyboardPressed(key)) && !rest.contains(RuntimeEventSelector::KeyboardPressed(key)) {
                let p = choose|p: int| 0 <= p < pushed.len() && pushed[p] == RuntimeEventSelector::KeyboardPressed(key);
                if p < rest.len() {
                    assert(rest[p] == pushed[p]);
                }
            }
            if rest.contains(RuntimeEventSelector::KeyboardPressed(key)) {
                let p = choose|p: int| 0 <= p < rest.len() && rest[p] == RuntimeEventSelector::KeyboardPressed(key);
                assert(pushed[p] == rest[p]);
            }
            if last.0 == key {
                assert(pushed[rest.len() as int] == RuntimeEventSelector::KeyboardPressed(key));
            }
            assert forall|j: int| 0 <= j < pushed.len() implies (#[trigger] pushed[j]) is KeyboardPressed by {
                if j < rest.len() {
                    assert(pushed[j] == rest[j]);
                }
            }
        }
    }
}

proof fn lemma_released_members(keys: Seq<(u16, ButtonState)>, key: u16)
    ensures
        spec_released_selectors(keys).contains(RuntimeEventSelector::KeyboardReleased(key)) <==> exists|i: int|
            0 <= i < keys.len() && (#[trigger] keys[i]).0 == key && keys[i].1.just_released,
        forall|j: int|
            0 <= j < spec_released_selectors(keys).len() ==> (#[trigger] spec_released_selectors(keys)[j]) is KeyboardReleased,
    decreases keys.len(),
{
    if keys.len() > 0 {
        let prev = keys.drop_last();
        lemma_released_members(prev, key);
        let rest = spec_released_selectors(prev);
        let full = spec_released_selectors(keys);
        let last = keys.last();
        if exists|i: int| 0 <= i < prev.len() && (#[trigger] prev[i]).0 == key && prev[i].1.just_released {
            let i = choose|i: int| 0 <= i < prev.len() && (#[trigger] prev[i]).0 == key && prev[i].1.just_released;
            assert(keys[i] == prev[i]);
        }
        if exists|i: int| 0 <= i < keys.len() && (#[trigger] keys[i]).0 == key && keys[i].1.just_released {
            let i = choose|i: int| 0 <= i < keys.len() && (#[trigger] keys[i]).0 == key && keys[i].1.just_released;
            if i < prev.len() {
                assert(prev[i] == keys[i]);
            }
        }
        if last.1.just_released {
            let pushed = rest.push(RuntimeEventSelector::KeyboardReleased(last.0));
            assert(full == pushed);
            if pushed.contains(RuntimeEventSelector::KeyboardReleased(key)) && !rest.contains(RuntimeEventSelector::KeyboardReleased(key)) {
                let p = choose|p: int| 0 <= p < pushed.len() && pushed[p] == RuntimeEventSelector::KeyboardReleased(key);
                if p < rest.len() {
                    assert(rest[p] == pushed[p]);
                }
            }
            if rest.contains(RuntimeEventSelector::KeyboardReleased(key)) {
                let p = choose|p: int| 0 <= p < rest.len() && rest[p] == RuntimeEventSelector::KeyboardReleased(key);
                assert(pushed[p] == rest[p]);
            }
            if last.0 == key {
                assert(pushed[rest.len() as int] == RuntimeEventSelector::KeyboardReleased(key));
            }
            assert forall|j: int| 0 <= j < pushed.len() implies (#[trigger] pushed[j]) is KeyboardReleased by {
                if j < rest.len() {
                    assert(pushed[j] == rest[j]);
                }
            }
        }
    }
}

/// A tick dispatches a held event for exactly the keys that are pressed, a
/// pressed event for exactly the keys just pressed and a released event for
/// exactly the keys just released; all held events come first, then the
/// pressed ones, then the released ones.
pub proof fn law_keyboard_events_follow_the_keys(keys: Seq<(u16, ButtonState)>, key: u16)
    ensures
        spec_keyboard_event_selectors(keys).contains(RuntimeEventSelector::KeyboardHeld(key)) <==> exists|i: int|
            0 <= i < keys.len() && (#[trigger] keys[i]).0 == key && keys[i].1.pressed,
        spec_keyboard_event_selectors(keys).contains(RuntimeEventSelector::KeyboardPressed(key)) <==> exists|i: int|
            0 <= i < keys.len() && (#[trigger] keys[i]).0 == key && keys[i].1.just_pressed,
        spec_keyboard_event_selectors(keys).contains(RuntimeEventSelector::KeyboardReleased(key)) <==> exists|i: int|
            0 <= i < keys.len() && (#[trigger] keys[i]).0 == key && keys[i].1.just_released,
        forall|a: int, b: int|
            0 <= a < b < spec_keyboard_event_selectors(keys).len() && (#[trigger] spec_keyboard_event_selectors(keys)[b]) is KeyboardHeld
                ==> (#[trigger] spec_keyboard_event_selectors(keys)[a]) is KeyboardHeld,
        forall|a: int, b: int|
            0 <= a < b < spec_keyboard_event_selectors(keys).len() && (#[trigger] spec_keyboard_event_selectors(keys)[a]) is KeyboardReleased
                ==> (#[trigger] spec_keyboard_event_selectors(keys)[b]) is KeyboardReleased,
{
    lemma_held_members(keys, key);
    lemma_pressed_members(keys, key);
    lemma_released_members(keys, key);
    let h = spec_held_selectors(keys);
    let p = spec_pressed_selectors(keys);
    let r = spec_released_selectors(keys);
    let all = spec_keyboard_event_selectors(keys);
    assert(all == h + p + r);
    assert(all.contains(RuntimeEventSelector::KeyboardHeld(key)) <==> h.contains(RuntimeEventSelector::KeyboardHeld(key))) by {
        if all.contains(RuntimeEventSelector::KeyboardHeld(key)) {
            let q = choose|q: int| 0 <= q < all.len() && all[q] == RuntimeEventSelector::KeyboardHeld(key);
            if q >= h.len() {
                if q < h.len() + p.len() {
                    assert(all[q] == p[q - h.len()]);
                } else {
                    assert(all[q] == r[q - h.len() - p.len()]);
                }
            } else {
                assert(all[q] == h[q]);
            }
        }
        if h.contains(RuntimeEventSelector::KeyboardHeld(key)) {
            let q = choose|q: int| 0 <= q < h.len() && h[q] == RuntimeEventSelector::KeyboardHeld(key);
            assert(all[q] == h[q]);
        }
    }
    assert(all.contains(RuntimeEventSelector::KeyboardPressed(key)) <==> p.contains(RuntimeEventSelector::KeyboardPressed(key))) by {
        if all.contains(RuntimeEventSelector::KeyboardPressed(key)) {
            let q = choose|q: int| 0 <= q < all.len() && all[q] == RuntimeEventSelector::KeyboardPressed(key);
            if q < h.len() {
                assert(all[q] == h[q]);
            } else if q < h.len() + p.len() {
                assert(all[q] == p[q - h.len()]);
            } else {
                assert(all[q] == r[q - h.len() - p.len()]);
            }
        }
        if p.contains(RuntimeEventSelector::KeyboardPressed(key)) {
            let q = choose|q: int| 0 <= q < p.len() && p[q] == RuntimeEventSelector::KeyboardPressed(key);
            assert(all[h.len() + q] == p[q]);
        }
    }
    assert(all.contains(RuntimeEventSelector::KeyboardReleased(key)) <==> r.contains(RuntimeEventSelector::KeyboardReleased(key))) by {
        if all.contains(RuntimeEventSelector::KeyboardReleased(key)) {
            let q = choose|q: int| 0 <= q < all.len() && all[q] == RuntimeEventSelector::KeyboardReleased(key);
            if q < h.len() {
                assert(all[q] == h[q]);
            } else if q < h.len() + p.len() {
                assert(all[q] == p[q - h.len()]);
            } else {
                assert(all[q] == r[q - h.len() - p.len()]);
            }
        }
        if r.contains(RuntimeEventSelector::KeyboardReleased(key)) {
            let q = choose|q: int| 0 <= q < r.len() && r[q] == RuntimeEventSelector::KeyboardReleased(key);
            assert(all[h.len() + p.len() + q] == r[q]);
        }
    }
    assert forall|a: int, b: int|
        0 <= a < b < all.len() && (#[trigger] all[b]) is KeyboardHeld implies (#[trigger] all[a]) is KeyboardHeld by {
        if b >= h.len() {
            if b < h.len() + p.len() {
                assert(all[b] == p[b - h.len()]);
            } else {
                assert(all[b] == r[b - h.len() - p.len()]);
            }
        }
        assert(all[a] == h[a]);
    }
    assert forall|a: int, b: int|
        0 <= a < b < all.len() && (#[trigger] all[a]) is KeyboardReleased implies (#[trigger] all[b]) is KeyboardReleased by {
        if a < h.len() {
            assert(all[a] == h[a]);
        } else if a < h.len() + p.len() {
            assert(all[a] == p[a - h.len()]);
        }
        assert(all[b] == r[b - h.len() - p.len()]);
    }
}

} // verus!
