use iwm_runtime_core::context::StepExecutionResult;
use iwm_runtime_core::event_dispatch::RuntimeEventSelector;
use iwm_runtime_core::event_run::{
    for_iteration_finished, next_event_run_step, repeat_iterations, EventRunAction, EventRunStage,
};
use iwm_runtime_core::lowered::{LoweredLogicEntry, LoweredLogicExpr, LoweredLogicStatement};
use iwm_runtime_core::frame::{InstanceSprite, RoomLayout};
use iwm_runtime_core::model::{RuntimeInstance, RuntimePackage, RuntimeRoomState};
use iwm_runtime_core::player::PlayerJumpState;
use iwm_runtime_core::runtime_core::{default_room_id, RuntimeCore, RuntimeCoreError, RuntimeStatus};
use iwm_runtime_core::scene_change::{PendingSceneChange, RoomChange};
use iwm_runtime_core::step_events::{
    after_step_instance, next_step_pass_action, player_jump_owned_by_script, step_dispatches, step_pass_start,
    StepInstanceReport, StepPassAction,
};
use std::collections::HashMap;
use iwm_runtime_core::tick::{
    keyboard_event_selectors, next_tick_step, ButtonState, TickAction, TickObservation, TickStage,
};

fn seen(pending: bool, step: StepExecutionResult) -> TickObservation {
    TickObservation { has_room: true, room_empty: false, pending_scene_change: pending, step, restart_just_pressed: false }
}

fn quiet_step() -> StepExecutionResult {
    StepExecutionResult { interrupted: false, player_motion_changed: false, player_jump_owned_by_script: false }
}

fn run(mut observe: impl FnMut(&TickAction) -> TickObservation) -> Vec<TickAction> {
    let mut stage = TickStage::Begin;
    let mut last = TickAction::Done;
    let mut actions = Vec::new();
    for _ in 0..40 {
        let (next, action) = next_tick_step(stage, observe(&last));
        if action == TickAction::Done {
            return actions;
        }
        actions.push(action);
        last = action;
        stage = next;
    }
    panic!("tick did not end");
}

#[test]
fn a_quiet_tick_runs_every_phase_once_and_renders() {
    let actions = run(|_| seen(false, quiet_step()));
    assert_eq!(
        actions,
        vec![
            TickAction::ReadInput,
            TickAction::ApplyPendingRoomChange,
            TickAction::RunDeferredBootstrapScripts,
            TickAction::ProcessTimelines,
            TickAction::ExecuteStepEvents,
            TickAction::SyncViewsFromGlobals,
            TickAction::StepPlayer { apply_jump: true },
            TickAction::StepNonPlayers,
            TickAction::DispatchOutsideRoom,
            TickAction::DispatchCollisions,
            TickAction::DetectHazards,
            TickAction::ProcessAlarms,
            TickAction::DispatchKeyboard,
            TickAction::AdvanceAnimations,
            TickAction::Render,
        ]
    );
}

#[test]
fn an_interrupted_step_applies_the_change_and_renders_at_once() {
    let step = StepExecutionResult { interrupted: true, player_motion_changed: false, player_jump_owned_by_script: false };
    let actions = run(|_| seen(false, step));
    assert_eq!(
        &actions[4..],
        &[
            TickAction::ExecuteStepEvents,
            TickAction::SyncViewsFromGlobals,
            TickAction::ApplyPendingRoomChange,
            TickAction::Render,
        ]
    );
}

#[test]
fn moved_players_are_not_stepped_and_script_jumps_are_not_applied() {
    let moved = StepExecutionResult { interrupted: false, player_motion_changed: true, player_jump_owned_by_script: false };
    let actions = run(|_| seen(false, moved));
    assert_eq!(actions[6], TickAction::StepNonPlayers);
    let owned = StepExecutionResult { interrupted: false, player_motion_changed: true, player_jump_owned_by_script: true };
    let actions = run(|_| seen(false, owned));
    assert_eq!(actions[6], TickAction::StepPlayer { apply_jump: false });
}

#[test]
fn empty_rooms_skip_the_step_phases_and_missing_rooms_fail() {
    let actions = run(|_| TickObservation { room_empty: true, ..seen(false, quiet_step()) });
    assert_eq!(&actions[3..6], &[TickAction::ProcessTimelines, TickAction::RecordEmptyRoom, TickAction::DispatchOutsideRoom]);
    let actions = run(|_| TickObservation { has_room: false, ..seen(false, quiet_step()) });
    assert_eq!(actions, vec![TickAction::Fail]);
}

#[test]
fn restarts_are_requested_only_without_a_pending_change() {
    let actions = run(|_| TickObservation { restart_just_pressed: true, ..seen(false, quiet_step()) });
    assert_eq!(&actions[12..], &[
        TickAction::DispatchKeyboard,
        TickAction::RequestRestart,
        TickAction::AdvanceAnimations,
        TickAction::Render,
    ]);
    let actions = run(|last| {
        let pending = *last == TickAction::RequestRestart;
        TickObservation { restart_just_pressed: true, ..seen(pending, quiet_step()) }
    });
    assert_eq!(&actions[13..], &[
        TickAction::RequestRestart,
        TickAction::ApplyPendingRoomChange,
        TickAction::AdvanceAnimations,
        TickAction::Render,
    ]);
}

#[test]
fn keyboard_events_come_held_then_pressed_then_released() {
    let keys = vec![
        (65u16, ButtonState { pressed: true, just_pressed: true, just_released: false }),
        (66u16, ButtonState { pressed: false, just_pressed: false, just_released: true }),
        (67u16, ButtonState { pressed: true, just_pressed: false, just_released: false }),
    ];
    let names: Vec<String> = keyboard_event_selectors(&keys)
        .iter()
        .map(|selector| match selector {
            RuntimeEventSelector::KeyboardHeld(k) => format!("held {k}"),
            RuntimeEventSelector::KeyboardPressed(k) => format!("pressed {k}"),
            RuntimeEventSelector::KeyboardReleased(k) => format!("released {k}"),
            _ => "other".to_string(),
        })
        .collect();
    assert_eq!(names, vec!["held 65", "held 67", "pressed 65", "released 66"]);
}

fn instance(object_id: usize, alive: bool) -> RuntimeInstance<f64> {
    RuntimeInstance {
        runtime_id: 0,
        instance_id: 0,
        object_id,
        object_name: String::new(),
        x: 0.0,
        y: 0.0,
        previous_x: 0.0,
        previous_y: 0.0,
        hspeed: 0.0,
        vspeed: 0.0,
        width: 1,
        height: 1,
        origin_x: 0,
        origin_y: 0,
        bbox_left: 0,
        bbox_right: 0,
        bbox_top: 0,
        bbox_bottom: 0,
        facing_left: false,
        alive,
        solid: false,
        hazard: false,
        checkpoint: false,
        player_candidate: false,
        persistent: false,
        visible: true,
        collision_masks: Vec::new(),
        vars: HashMap::new(),
    }
}

#[test]
fn step_passes_run_live_instances_with_step_entries() {
    let mut by_object: HashMap<usize, Vec<usize>> = HashMap::new();
    by_object.insert(1, vec![0]);
    by_object.insert(2, vec![1]);
    let instances = vec![instance(1, true), instance(3, true), instance(2, false), instance(2, true)];
    assert_eq!(step_dispatches(&instances, &by_object), vec![(0, 1), (3, 2)]);
}

#[test]
fn jump_queries_in_a_players_step_take_over_the_jump() {
    let jump = LoweredLogicExpr::MemberAccess {
        target: Box::new(LoweredLogicExpr::Identifier("global".to_string())),
        member: "jumpbutton".to_string(),
    };
    let query = LoweredLogicStatement::FunctionCall { name: "keyboard_check_pressed".to_string(), args: vec![jump] };
    let entries: Vec<LoweredLogicEntry<f64>> = vec![
        LoweredLogicEntry { block_id: "a".to_string(), statements: Vec::new() },
        LoweredLogicEntry { block_id: "b".to_string(), statements: vec![query] },
    ];
    assert!(player_jump_owned_by_script(true, &vec![0, 1], &entries));
    assert!(!player_jump_owned_by_script(false, &vec![1], &entries));
    assert!(!player_jump_owned_by_script(true, &vec![0, 7], &entries));
}

#[test]
fn scene_requests_replace_each_other_and_are_carried_out_once() {
    let mut pending = PendingSceneChange::none();
    assert!(!pending.has_pending_scene_change());
    pending.request_room_reset();
    pending.request_room_transition(5);
    assert!(pending.has_pending_scene_change());
    assert_eq!(pending.take_room_changes(), vec![RoomChange::RoomReset, RoomChange::Transition { room_id: 5 }]);
    assert!(!pending.has_pending_scene_change());
    assert!(pending.take_room_changes().is_empty());

    pending.request_room_goto(3);
    pending.request_game_restart();
    assert_eq!(pending.take_room_changes(), vec![RoomChange::GameRestart]);

    pending.request_game_restart();
    pending.request_room_reset();
    pending.request_room_goto(8);
    assert_eq!(pending.take_room_changes(), vec![RoomChange::Transition { room_id: 8 }]);
}

fn package_with_rooms(room_ids: Vec<usize>) -> RuntimePackage {
    RuntimePackage { objects: Vec::new(), scripts: Vec::new(), sprites: Vec::new(), room_ids, manifest_room_order: Vec::new(), default_room_id: None }
}

fn room_with(instances: Vec<RuntimeInstance<f64>>) -> RuntimeRoomState<f64> {
    RuntimeRoomState {
        room_id: 3,
        room_name: "r3".to_string(),
        width: 10,
        height: 10,
        speed: 30,
        playable: true,
        spawn_point: None,
        views_enabled: false,
        views: Vec::new(),
        instances,
    }
}

#[test]
fn loading_boots_the_default_room() {
    let build = |id: usize| -> Result<RuntimeRoomState<f64>, RuntimeCoreError> {
        let mut room = room_with(Vec::new());
        room.room_id = id;
        Ok(room)
    };
    assert_eq!(RuntimeCore::<f64>::load(package_with_rooms(Vec::new()), build).err(), Some(RuntimeCoreError::NoRooms));
    let core = RuntimeCore::<f64>::load(package_with_rooms(vec![3, 4]), build).unwrap();
    assert_eq!(core.current_room().map(|room| room.room_id), Some(3));
    let mut package = package_with_rooms(vec![3, 4]);
    package.default_room_id = Some(4);
    let mut core = RuntimeCore::<f64>::load(package, build).unwrap();
    assert_eq!(core.current_room().map(|room| room.room_id), Some(4));
    assert_eq!(core.status(), RuntimeStatus::Ready);
    assert_eq!(core.tick_count(), 0);
    let failing = |id: usize| -> Result<RuntimeRoomState<f64>, RuntimeCoreError> { Err(RuntimeCoreError::RoomMissing(id)) };
    assert_eq!(
        RuntimeCore::<f64>::load(package_with_rooms(vec![3]), failing).err(),
        Some(RuntimeCoreError::RoomMissing(3))
    );
    assert_eq!(core.boot_default_room(failing), Err(RuntimeCoreError::RoomMissing(4)));
    assert_eq!(core.current_room().map(|room| room.room_id), Some(4));
}

#[test]
fn the_runtime_core_counts_ticks_only_with_a_room() {
    let mut core = RuntimeCore::<f64>::load(package_with_rooms(vec![3, 4]), |_| Ok(room_with(Vec::new()))).unwrap();
    core.current_room = None;
    assert_eq!(core.current_room_speed(), None);
    assert_eq!(core.begin_tick(), Err(RuntimeCoreError::NoRooms));
    assert_eq!(core.status(), RuntimeStatus::Error);
    assert_eq!(core.tick_count(), 0);
    assert_eq!(default_room_id(None, &core.package.room_ids), Ok(3));
    assert_eq!(default_room_id(Some(9), &core.package.room_ids), Ok(9));
    assert_eq!(default_room_id(None, &Vec::new()), Err(RuntimeCoreError::NoRooms));
    core.enter_room(room_with(Vec::new()));
    assert_eq!(core.current_room_speed(), Some(30));
    assert_eq!(core.begin_tick(), Ok(()));
    assert_eq!((core.status(), core.tick_count()), (RuntimeStatus::Running, 1));
    assert!(!core.has_pending_scene_change());
    core.request_room_transition(4);
    assert!(core.has_pending_scene_change());
    assert!(core.diagnostics().is_empty());
}

#[test]
fn reloading_keeps_persistent_non_players() {
    let mut core = RuntimeCore::<f64>::load(package_with_rooms(vec![3]), |_| Ok(room_with(Vec::new()))).unwrap();
    let mut keep = instance(7, true);
    keep.persistent = true;
    keep.instance_id = 70;
    let mut dead = instance(8, false);
    dead.persistent = true;
    let mut player = instance(9, true);
    player.persistent = true;
    player.player_candidate = true;
    player.object_name = "player".to_string();
    core.enter_room(room_with(vec![keep, dead, player]));
    core.enter_reloaded_room(room_with(vec![instance(1, true)]));
    let room = core.current_room().unwrap();
    let ids: Vec<(usize, usize)> = room.instances.iter().map(|i| (i.runtime_id, i.object_id)).collect();
    assert_eq!(ids, vec![(0, 1), (1, 7)]);
    assert_eq!(core.status(), RuntimeStatus::Ready);
}

fn event_run(lengths: &Vec<Option<usize>>, change_after: Option<EventRunAction>) -> Vec<EventRunAction> {
    let mut stage = EventRunStage::Start;
    let mut pending = false;
    let mut out = Vec::new();
    loop {
        let (next, action) = next_event_run_step(stage, pending, lengths);
        if action == EventRunAction::Done {
            return out;
        }
        if Some(action) == change_after {
            pending = true;
        }
        out.push(action);
        stage = next;
    }
}

#[test]
fn event_blocks_run_statement_by_statement_and_skip_missing_blocks() {
    let lengths = vec![Some(2), None, Some(0), Some(1)];
    assert_eq!(
        event_run(&lengths, None),
        vec![
            EventRunAction::BeginEntry { entry: 0 },
            EventRunAction::RunStatement { entry: 0, statement: 0 },
            EventRunAction::RunStatement { entry: 0, statement: 1 },
            EventRunAction::CommitEntry { entry: 0 },
            EventRunAction::BeginEntry { entry: 2 },
            EventRunAction::CommitEntry { entry: 2 },
            EventRunAction::BeginEntry { entry: 3 },
            EventRunAction::RunStatement { entry: 3, statement: 0 },
            EventRunAction::CommitEntry { entry: 3 },
            EventRunAction::WriteBack,
        ]
    );
    assert_eq!(
        event_run(&lengths, Some(EventRunAction::RunStatement { entry: 0, statement: 0 })),
        vec![
            EventRunAction::BeginEntry { entry: 0 },
            EventRunAction::RunStatement { entry: 0, statement: 0 },
            EventRunAction::CommitEntry { entry: 0 },
            EventRunAction::WriteBack,
        ]
    );
    assert_eq!(event_run(&vec![None], None), vec![EventRunAction::WriteBack]);
}

#[test]
fn loops_stop_at_ten_thousand_iterations() {
    assert_eq!(repeat_iterations(3), (3, false));
    assert_eq!(repeat_iterations(10_000), (10_000, false));
    assert_eq!(repeat_iterations(10_001), (10_000, true));
    assert_eq!(for_iteration_finished(0), (1, false));
    assert_eq!(for_iteration_finished(9_999), (10_000, true));
}

#[test]
fn step_passes_collect_flags_and_stop_on_scene_changes() {
    let report = |ran, is_player, jump_owned, motion_changed, scene| StepInstanceReport {
        ran,
        is_player,
        jump_owned,
        motion_changed,
        scene_change_pending: scene,
    };
    let state = step_pass_start();
    assert_eq!(next_step_pass_action(state, 3).1, StepPassAction::RunInstance { dispatch: 0 });
    let state = after_step_instance(state, report(true, true, true, true, false));
    let state = after_step_instance(state, report(false, false, false, false, true));
    assert_eq!(next_step_pass_action(state, 3).1, StepPassAction::RunInstance { dispatch: 2 });
    let state = after_step_instance(state, report(true, false, false, true, true));
    let (state, action) = next_step_pass_action(state, 3);
    assert_eq!(
        action,
        StepPassAction::WriteBack {
            result: StepExecutionResult { interrupted: true, player_motion_changed: true, player_jump_owned_by_script: true }
        }
    );
    assert_eq!(next_step_pass_action(state, 3).1, StepPassAction::Done);
}

#[test]
fn snapshots_and_frames_show_the_current_room() {
    let mut player = instance(9, true);
    player.player_candidate = true;
    player.object_name = "player".to_string();
    player.runtime_id = 1;
    let mut core =
        RuntimeCore::<f64>::load(package_with_rooms(vec![3]), |_| Ok(room_with(vec![instance(1, true), player]))).unwrap();
    let jump = PlayerJumpState { active: true, hold_frames: 2, cut_applied: false, grounded_last_tick: false };
    let snap = core.snapshot(jump, false);
    assert_eq!((snap.room_id, snap.room_speed, snap.instance_count), (Some(3), Some(30), 2));
    assert_eq!(snap.room_name.as_deref(), Some("r3"));
    let p = snap.player.unwrap();
    assert_eq!((p.runtime_id, p.object_id, p.jump.hold_frames), (1, 9, 2));
    let layout = RoomLayout { clear_screen: false, background_colour: 0, backgrounds: Vec::new(), tiles: Vec::new() };
    let hidden = InstanceSprite {
        has_object: false,
        visible: false,
        sprite_id: -1,
        sprite: None,
        x: 0,
        y: 0,
        depth: 0,
        frame_index: 0,
        xscale: 1.0,
        yscale: 1.0,
        alpha: 1.0,
        angle_degrees: 0.0,
    };
    let frame = core.render(&layout, &vec![hidden, hidden], Vec::new(), None).unwrap();
    assert_eq!((frame.room_id, frame.width, frame.height, frame.commands.len()), (Some(3), 10, 10, 1));
    core.current_room = None;
    assert!(core.snapshot(jump, false).player.is_none());
    assert_eq!(core.render(&layout, &Vec::new(), Vec::new(), None).err(), Some(RuntimeCoreError::NoRooms));
}
