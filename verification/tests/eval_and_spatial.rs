use iwm_runtime_core::context::{RuntimeExecutionScope, RuntimeRoomInstanceOverlay};
use iwm_runtime_core::with_targets::WithTargets;
use iwm_runtime_core::diagnostics::{
    record_execution_trace, record_host_diagnostic, record_unsupported_expr_functions, record_unsupported_statement,
    RuntimeDiagnostic, RuntimeDiagnosticLevel, RuntimeExecutionTrace, MAX_DIAGNOSTICS,
};
use iwm_runtime_core::lowered::{LoweredLogicExpr, LoweredLogicStatement};
use iwm_runtime_core::eval_context::{next_room_id, RuntimeEvalContext};
use iwm_runtime_core::event_dispatch::parent_chains_terminate;
use iwm_runtime_core::model::{ObjectDefinition, RuntimeInstance, RuntimeRoomState, RuntimeValue};
use iwm_runtime_core::spatial_index::{candidate_indices_from_cells, runtime_collision_spatial_index};
use iwm_runtime_core::StringHashMap;
use std::collections::HashMap;

fn instance(runtime_id: usize, object_id: usize, alive: bool, solid: bool) -> RuntimeInstance<f64> {
    RuntimeInstance {
        runtime_id,
        instance_id: 1000 + runtime_id as i32,
        object_id,
        object_name: format!("obj{object_id}"),
        x: 0.0,
        y: 0.0,
        previous_x: 0.0,
        previous_y: 0.0,
        hspeed: 0.0,
        vspeed: 0.0,
        width: 1,
        height: 1,
        origin_x: 0,
        origin_y: 0,
        bbox_left: 0,
        bbox_right: 0,
        bbox_top: 0,
        bbox_bottom: 0,
        facing_left: false,
        alive,
        solid,
        hazard: false,
        checkpoint: false,
        player_candidate: false,
        persistent: false,
        visible: true,
        collision_masks: Vec::new(),
        vars: HashMap::new(),
    }
}

fn room(instances: Vec<RuntimeInstance<f64>>) -> RuntimeRoomState<f64> {
    RuntimeRoomState {
        room_id: 1,
        room_name: "r".to_string(),
        width: 640,
        height: 480,
        speed: 50,
        playable: true,
        spawn_point: None,
        views_enabled: false,
        views: Vec::new(),
        instances,
    }
}

fn object(id: usize, parent_index: i32) -> ObjectDefinition {
    ObjectDefinition {
        id,
        name: format!("o{id}"),
        parent_index,
        solid: false,
        is_player: false,
        is_hazard: None,
        is_checkpoint: None,
        sprite_index: -1,
        mask_index: -1,
        depth: 0,
        events: Vec::new(),
    }
}

#[test]
fn parent_chains_are_checked_for_cycles() {
    assert!(parent_chains_terminate(&vec![object(0, -1), object(1, 0), object(2, 1)]));
    assert!(parent_chains_terminate(&vec![object(1, 9)]));
    assert!(parent_chains_terminate(&Vec::new()));
    assert!(!parent_chains_terminate(&vec![object(0, 1), object(1, 0)]));
    assert!(!parent_chains_terminate(&vec![object(3, 3)]));
}

#[test]
fn spatial_index_files_live_instances_by_cell() {
    let r = room(vec![
        instance(0, 7, true, false),
        instance(1, 7, true, true),
        instance(2, 7, false, true),
        instance(3, 8, true, true),
    ]);
    let bounds = vec![(0, 0, 10, 10), (130, 0, 140, 10), (0, 0, 10, 10), (200, 200, 210, 210)];
    let index = runtime_collision_spatial_index(&r, &bounds);
    assert_eq!(index.candidate_indices(7, (5, 5, 6, 6)), vec![0]);
    assert_eq!(index.candidate_indices(7, (0, 0, 140, 10)), vec![0, 1]);
    assert_eq!(index.candidate_indices(7, (128, 0, 129, 1)), vec![1]);
    assert_eq!(index.candidate_indices(8, (0, 0, 140, 10)), Vec::<usize>::new());
    assert_eq!(index.candidate_indices(8, (190, 190, 201, 201)), vec![3]);
    assert_eq!(index.candidate_indices(9, (0, 0, 640, 480)), Vec::<usize>::new());
    assert_eq!(index.solid_candidate_indices((0, 0, 640, 480)), vec![1, 3]);
    assert_eq!(index.solid_candidate_indices((0, 0, 10, 10)), Vec::<usize>::new());
}

#[test]
fn overlapping_instances_are_always_candidates() {
    let r = room(vec![instance(0, 4, true, false), instance(1, 4, true, false)]);
    let bounds = vec![(-70, -70, 130, 5), (63, 63, 65, 65)];
    let index = runtime_collision_spatial_index(&r, &bounds);
    for query in [(64, 64, 65, 65), (0, 0, 1, 1), (129, 4, 200, 200), (-70, -70, -69, -69)] {
        let candidates = index.candidate_indices(4, query);
        for (j, b) in bounds.iter().enumerate() {
            let overlaps = query.0 < b.2 && b.0 < query.2 && query.1 < b.3 && b.1 < query.3;
            if overlaps {
                assert!(candidates.contains(&j), "{:?} {}", query, j);
            }
        }
    }
}

#[test]
fn candidates_from_cells_are_unique() {
    let mut cells: HashMap<u64, Vec<usize>> = HashMap::new();
    let r = room(vec![instance(0, 1, true, false), instance(1, 1, true, false)]);
    let index = runtime_collision_spatial_index(&r, &vec![(0, 0, 200, 10), (100, 0, 101, 1)]);
    assert_eq!(index.candidate_indices(1, (0, 0, 200, 10)), vec![0, 1]);
    assert_eq!(candidate_indices_from_cells(&cells, (0, 0, 10, 10)), Vec::<usize>::new());
    cells.clear();
}

#[test]
fn eval_context_sees_instances_through_the_overlay() {
    let instances = vec![instance(0, 5, true, false), instance(1, 6, true, false), instance(2, 5, true, false)];
    let by_object: HashMap<usize, Vec<usize>> = HashMap::new();
    let committed: HashMap<usize, RuntimeInstance<f64>> = HashMap::new();
    let mut moved = instance(1, 6, true, false);
    moved.x = 99.0;
    let running = instance(3, 9, true, false);
    let overlay = RuntimeRoomInstanceOverlay::with_current(&committed, &[(1, moved)], 3, &running);
    let names: StringHashMap<Vec<usize>> = StringHashMap::new();
    let rooms: StringHashMap<usize> = StringHashMap::new();
    let order = [4usize, 1, 7];
    let context = RuntimeEvalContext {
        current_room_id: 1,
        room_instances: &instances,
        room_instance_indices_by_object_id: &by_object,
        collision_spatial_index: None,
        room_instance_overlay: overlay,
        room_order: &order,
        other_instance: None,
        other_runtime_id: Some(2),
        place_target_ids_by_name: &names,
        room_ids_by_name: &rooms,
    };
    assert_eq!(context.room_instance(1).map(|i| i.x), Some(99.0));
    assert_eq!(context.room_instance(3).map(|i| i.object_id), Some(9));
    assert!(context.room_instance(4).is_none());
    let all = context.room_instances_iter();
    assert_eq!(all.iter().map(|(i, _)| *i).collect::<Vec<_>>(), vec![0, 1, 2, 3]);
    assert_eq!(context.other_instance().map(|i| i.runtime_id), Some(2));
    assert_eq!(context.room_instance_indices_matching_object_ids(&[5]), vec![0, 2]);
    assert_eq!(context.room_instance_indices_matching_object_ids(&[9]), Vec::<usize>::new());
    let matching = context.room_instances_matching_object_ids(&[6, 5]);
    assert_eq!(matching.iter().map(|(i, _)| *i).collect::<Vec<_>>(), vec![0, 1, 2]);
    assert_eq!(context.solid_room_instance_indices_near((0, 0, 1, 1)), Vec::<usize>::new());
    let globals: HashMap<String, RuntimeValue<f64>> = HashMap::new();
    assert_eq!(next_room_id(&instances[0], &globals, Some(&context)), Some(7));
    assert_eq!(next_room_id(&instances[0], &globals, None), None);
}

#[test]
fn eval_context_uses_the_object_index_when_present() {
    let instances = vec![instance(0, 5, true, false), instance(1, 6, true, false), instance(2, 5, false, false)];
    let mut by_object: HashMap<usize, Vec<usize>> = HashMap::new();
    by_object.insert(5, vec![0]);
    by_object.insert(6, vec![1]);
    let names: StringHashMap<Vec<usize>> = StringHashMap::new();
    let rooms: StringHashMap<usize> = StringHashMap::new();
    let order = [1usize];
    let r = room(instances.clone());
    let spatial = runtime_collision_spatial_index(&r, &vec![(0, 0, 1, 1), (0, 0, 1, 1), (0, 0, 1, 1)]);
    let context = RuntimeEvalContext {
        current_room_id: 1,
        room_instances: &instances,
        room_instance_indices_by_object_id: &by_object,
        collision_spatial_index: Some(&spatial),
        room_instance_overlay: RuntimeRoomInstanceOverlay::empty(),
        room_order: &order,
        other_instance: Some(&instances[1]),
        other_runtime_id: None,
        place_target_ids_by_name: &names,
        room_ids_by_name: &rooms,
    };
    assert_eq!(context.room_instance_indices_matching_object_ids(&[6, 5, 7]), vec![1, 0]);
    assert_eq!(context.room_instance_indices_matching_object_ids_near(&[5, 6], (0, 0, 1, 1)), vec![0, 1]);
    assert_eq!(context.other_instance().map(|i| i.runtime_id), Some(1));
    let globals: HashMap<String, RuntimeValue<f64>> = HashMap::new();
    assert_eq!(next_room_id(&instances[0], &globals, Some(&context)), None);
}

#[test]
fn the_diagnostic_log_keeps_the_latest() {
    let mut log: Vec<RuntimeDiagnostic> = Vec::new();
    for i in 0..(MAX_DIAGNOSTICS + 3) {
        let d = record_host_diagnostic(&mut log, RuntimeDiagnosticLevel::Warning, "code".to_string(), format!("m{i}"));
        assert_eq!(d.message, format!("m{i}"));
        assert!(log.len() <= MAX_DIAGNOSTICS);
    }
    assert_eq!(log.len(), MAX_DIAGNOSTICS);
    assert_eq!(log[0].message, "m3");
    assert_eq!(log[MAX_DIAGNOSTICS - 1].message, format!("m{}", MAX_DIAGNOSTICS + 2));
}

#[test]
fn execution_traces_skip_collisions() {
    let mut log: Vec<RuntimeDiagnostic> = Vec::new();
    let inst = instance(4, 2, true, false);
    assert!(record_execution_trace(&mut log, 1, 2, &inst, "b", "collision").is_none());
    assert!(log.is_empty());
    let d = record_execution_trace(&mut log, 1, 2, &inst, "blk", "step").unwrap();
    assert_eq!(d.level, RuntimeDiagnosticLevel::Info);
    assert_eq!(d.code, "runtime-exec-block-trace");
    assert_eq!(d.message, "room=1 tick=2 block_id=blk object=obj2 event_tag=step runtime_id=4");
    assert_eq!(log.len(), 1);
}

fn trace() -> RuntimeExecutionTrace {
    RuntimeExecutionTrace {
        room_id: 3,
        tick: 9,
        block_id: "blk".to_string(),
        object_name: "obj".to_string(),
        event_tag: "step".to_string(),
    }
}

fn call(name: &str, args: Vec<LoweredLogicExpr<f64>>) -> LoweredLogicExpr<f64> {
    LoweredLogicExpr::Call { name: name.to_string(), args }
}

#[test]
fn unsupported_calls_are_reported_outermost_first() {
    let mut log: Vec<RuntimeDiagnostic> = Vec::new();
    let inst = instance(4, 2, true, false);
    let mut scripts: StringHashMap<usize> = StringHashMap::new();
    scripts.insert("scr_known".to_string(), 0);
    let expr = LoweredLogicExpr::BinaryExpr {
        op: "+".to_string(),
        left: Box::new(call(
            "foo",
            vec![call("abs", vec![call("bar", vec![])]), call("scr_known", vec![LoweredLogicExpr::LiteralNumber(1.0)])],
        )),
        right: Box::new(LoweredLogicExpr::UnaryExpr { op: "-".to_string(), child: Box::new(call("baz", vec![])) }),
    };
    let out = record_unsupported_expr_functions(&mut log, &trace(), &expr, &inst, &scripts);
    let names: Vec<&str> = out.iter().map(|d| d.message.rsplit('=').next().unwrap()).collect();
    assert_eq!(names, vec!["foo", "bar", "baz"]);
    assert_eq!(out[0].level, RuntimeDiagnosticLevel::Warning);
    assert_eq!(out[0].code, "runtime-unsupported-function");
    assert_eq!(out[0].message, "room=3 tick=9 block_id=blk object=obj event_tag=step runtime_id=4 function=foo");
    assert_eq!(log.len(), 3);
    assert_eq!(log[2].message, out[2].message);
}

#[test]
fn supported_calls_are_not_reported() {
    let mut log: Vec<RuntimeDiagnostic> = Vec::new();
    let inst = instance(1, 2, true, false);
    let scripts: StringHashMap<usize> = StringHashMap::new();
    let expr = call("place_meeting", vec![LoweredLogicExpr::Identifier("x".to_string())]);
    assert!(record_unsupported_expr_functions(&mut log, &trace(), &expr, &inst, &scripts).is_empty());
    assert!(log.is_empty());
}

#[test]
fn unsupported_statements_name_their_kind() {
    let mut log: Vec<RuntimeDiagnostic> = Vec::new();
    let inst = instance(7, 2, true, false);
    let statement: LoweredLogicStatement<f64> = LoweredLogicStatement::Raw { source: "exit".to_string() };
    let d = record_unsupported_statement(&mut log, &trace(), &statement, &inst);
    assert_eq!(d.code, "runtime-unsupported-statement");
    assert_eq!(d.message, "room=3 tick=9 block_id=blk object=obj event_tag=step runtime_id=7 statement_kind=raw");
    assert_eq!(log.len(), 1);
}

fn with_indices(targets: WithTargets) -> Option<Vec<usize>> {
    match targets {
        WithTargets::Indices(v) => Some(v),
        WithTargets::ByReference => None,
    }
}

#[test]
fn with_targets_resolve_self_other_all_objects_and_names() {
    let instances = vec![instance(0, 5, true, false), instance(1, 6, true, false), instance(2, 5, false, false)];
    let by_object: HashMap<usize, Vec<usize>> = HashMap::new();
    let mut names: StringHashMap<Vec<usize>> = StringHashMap::new();
    names.insert("block".to_string(), vec![5]);
    names.insert("nothing".to_string(), vec![]);
    let rooms: StringHashMap<usize> = StringHashMap::new();
    let order = [1usize];
    let context = RuntimeEvalContext {
        current_room_id: 1,
        room_instances: &instances,
        room_instance_indices_by_object_id: &by_object,
        collision_spatial_index: None,
        room_instance_overlay: RuntimeRoomInstanceOverlay::empty(),
        room_order: &order,
        other_instance: None,
        other_runtime_id: Some(1),
        place_target_ids_by_name: &names,
        room_ids_by_name: &rooms,
    };
    let mut scope: RuntimeExecutionScope<RuntimeValue<f64>> = RuntimeExecutionScope::new();
    scope.declare("mine");
    let ident = |name: &str| LoweredLogicExpr::<f64>::Identifier(name.to_string());
    assert_eq!(with_indices(context.with_target_indices(&ident("SELF"), 4, &scope, None)), Some(vec![4]));
    assert_eq!(with_indices(context.with_target_indices(&ident("other"), 4, &scope, None)), Some(vec![1]));
    assert_eq!(with_indices(context.with_target_indices(&ident("all"), 4, &scope, None)), Some(vec![0, 1]));
    assert_eq!(with_indices(context.with_target_indices(&ident("Block"), 4, &scope, None)), Some(vec![0]));
    assert_eq!(with_indices(context.with_target_indices(&ident("nothing"), 4, &scope, None)), None);
    assert_eq!(with_indices(context.with_target_indices(&ident("mine"), 4, &scope, None)), None);
    let object = LoweredLogicExpr::Call { name: "__iwm_object".to_string(), args: vec![LoweredLogicExpr::LiteralNumber(6.0)] };
    assert_eq!(with_indices(context.with_target_indices(&object, 4, &scope, Some(6))), Some(vec![1]));
    assert_eq!(with_indices(context.with_target_indices(&object, 4, &scope, None)), Some(vec![]));
    assert_eq!(with_indices(context.with_target_indices(&LoweredLogicExpr::LiteralNumber(3.0), 4, &scope, None)), None);
}
