use iwm_runtime_core::event_dispatch::RuntimeEventSelector;
use iwm_runtime_core::event_dispatch::object_matches_or_inherits_from;
use iwm_runtime_core::model::{ObjectDefinition, ObjectEvent, RuntimeInstance, RuntimePackage, ScriptBlock};
use std::collections::HashMap;
use iwm_runtime_core::lowered::LoweredLogicEntry;
use iwm_runtime_core::package_caches::{
    collision_matching_object_ids_by_target, collision_target_ids_by_object_id, compute_place_target_ids_by_name,
    event_dispatches,
    lowered_event_entries_by_selector, lowered_event_entries_by_tag_for_runtime, lowered_logic_entry,
    lowered_logic_index, lowered_script_entries, object_event_blocks_by_tag, parse_timeline_block, runtime_room_order,
    timeline_entries,
};

fn event(event_type: usize, sub_event: u32, tag: &str, block_id: &str) -> ObjectEvent {
    ObjectEvent { event_type, sub_event, event_tag: tag.to_string(), block_id: block_id.to_string() }
}

fn object(id: usize, name: &str, parent_index: i32, events: Vec<ObjectEvent>) -> ObjectDefinition {
    ObjectDefinition {
        id,
        name: name.to_string(),
        parent_index,
        solid: false,
        is_player: false,
        is_hazard: None,
        is_checkpoint: None,
        sprite_index: -1,
        mask_index: -1,
        depth: 0,
        events,
    }
}

fn package() -> RuntimePackage {
    RuntimePackage {
        objects: vec![
            object(0, "Block", -1, vec![event(3, 0, "step", "b:step"), event(4, 2, "collision", "b:c2")]),
            object(1, "SpikeUp", 0, vec![event(3, 0, "step", "s:step1"), event(3, 0, "step", "s:step2")]),
            object(2, "player", -1, vec![event(8, 0, "draw", "p:draw")]),
            object(3, "block", 2, vec![]),
        ],
        scripts: Vec::new(),
        sprites: Vec::new(),
        room_ids: vec![10, 11, 12],
        manifest_room_order: Vec::new(),
        default_room_id: None,
    }
}

#[test]
fn event_blocks_by_tag_cover_every_object() {
    let p = package();
    let steps = object_event_blocks_by_tag(&p, "step");
    assert_eq!(steps.len(), 4);
    assert_eq!(steps[&0], vec!["b:step".to_string()]);
    assert_eq!(steps[&1], vec!["s:step1".to_string(), "s:step2".to_string()]);
    assert!(steps[&2].is_empty());
    let mut duplicated = package();
    duplicated.objects.push(object(0, "again", -1, vec![event(3, 0, "step", "again:step")]));
    assert_eq!(object_event_blocks_by_tag(&duplicated, "step")[&0], vec!["again:step".to_string()]);
}

#[test]
fn collision_targets_by_object() {
    let p = package();
    let targets = collision_target_ids_by_object_id(&p);
    assert_eq!(targets.len(), 2);
    assert_eq!(targets[&0], vec![2]);
    assert_eq!(targets[&1], vec![2]);
    assert!(!targets.contains_key(&2));
}

#[test]
fn place_targets_by_name_ignore_case_and_follow_inheritance() {
    let p = package();
    let by_name = compute_place_target_ids_by_name(&p);
    assert_eq!(by_name.len(), 3);
    assert_eq!(by_name.get("block"), Some(&vec![0, 1, 3]));
    assert_eq!(by_name.get("spikeup"), Some(&vec![1]));
    assert_eq!(by_name.get("player"), Some(&vec![2, 3]));
    assert_eq!(by_name.get("Block"), None);
}

#[test]
fn room_order_prefers_the_manifest() {
    let mut p = package();
    assert_eq!(runtime_room_order(&p), vec![10, 11, 12]);
    p.manifest_room_order = vec![12, 10];
    assert_eq!(runtime_room_order(&p), vec![12, 10]);
}

#[test]
fn matching_ids_for_every_collision_target() {
    let mut p = package();
    p.objects.push(object(4, "spike_child", 1, vec![event(4, 1, "collision", "c:c1")]));
    let targets = collision_target_ids_by_object_id(&p);
    let matching = collision_matching_object_ids_by_target(&p, &targets);
    assert_eq!(matching.len(), 2);
    assert_eq!(matching[&2], vec![2, 3]);
    assert_eq!(matching[&1], vec![1, 4]);
}

fn entry(block_id: &str) -> LoweredLogicEntry<f64> {
    LoweredLogicEntry { block_id: block_id.to_string(), statements: Vec::new() }
}

#[test]
fn logic_index_points_at_the_last_entry_of_a_block() {
    let entries = vec![entry("a"), entry("b"), entry("a")];
    let index = lowered_logic_index(&entries);
    assert_eq!(index.len(), 2);
    assert_eq!(index.get("a"), Some(&2));
    assert_eq!(index.get("b"), Some(&1));
    assert_eq!(lowered_logic_entry(&index, &entries, "b").map(|e| e.block_id.clone()), Some("b".to_string()));
    assert!(lowered_logic_entry(&index, &entries, "c").is_none());
    let short = vec![entry("a")];
    assert!(lowered_logic_entry(&index, &short, "a").is_none());
}

#[test]
fn timeline_block_ids() {
    assert_eq!(parse_timeline_block("timeline:3:120"), Some((3, 120)));
    assert_eq!(parse_timeline_block("timeline:+0:+7"), Some((0, 7)));
    assert_eq!(parse_timeline_block("timeline:3:1:2"), None);
    assert_eq!(parse_timeline_block("timeline:3"), None);
    assert_eq!(parse_timeline_block("timeline::5"), None);
    assert_eq!(parse_timeline_block("timeline:x:5"), None);
    assert_eq!(parse_timeline_block("timeline:3:4294967296"), None);
    assert_eq!(parse_timeline_block("Timeline:3:1"), None);
    assert_eq!(parse_timeline_block("obj:step"), None);
}

#[test]
fn timeline_entries_are_grouped_and_ordered_by_moment() {
    let index = vec![
        ("timeline:1:30".to_string(), 7usize),
        ("obj0:step".to_string(), 1),
        ("timeline:1:10".to_string(), 4),
        ("timeline:2:0".to_string(), 9),
        ("timeline:1:30".to_string(), 2),
        ("timeline:1:20".to_string(), 5),
    ];
    let timelines = timeline_entries(&index);
    assert_eq!(timelines.len(), 2);
    assert_eq!(timelines[&1], vec![(10, 4), (20, 5), (30, 7), (30, 2)]);
    assert_eq!(timelines[&2], vec![(0, 9)]);
    let mut expected = vec![(30u32, 7usize), (10, 4), (30, 2), (20, 5)];
    expected.sort_by_key(|(moment, _)| *moment);
    assert_eq!(timelines[&1], expected);
}

#[test]
fn logic_entries_by_object_for_a_tag_and_a_selector() {
    let p = package();
    let entries = vec![entry("b:step"), entry("s:step2"), entry("p:draw"), entry("unused")];
    let index = lowered_logic_index(&entries);
    let by_tag = lowered_event_entries_by_tag_for_runtime(&p, &index, &entries, "step");
    assert_eq!(by_tag.len(), 2);
    assert_eq!(by_tag[&0].iter().map(|e| e.block_id.clone()).collect::<Vec<_>>(), vec!["b:step".to_string()]);
    assert_eq!(by_tag[&1].iter().map(|e| e.block_id.clone()).collect::<Vec<_>>(), vec!["s:step2".to_string()]);
    let by_selector = lowered_event_entries_by_selector(&p, &index, &entries, RuntimeEventSelector::Step);
    assert_eq!(by_selector.len(), 2);
    assert_eq!(by_selector[&1].len(), 1);
    let draws = lowered_event_entries_by_selector(&p, &index, &entries, RuntimeEventSelector::Draw);
    assert_eq!(draws.len(), 2);
    assert_eq!(draws[&3][0].block_id, "p:draw");
}

#[test]
fn script_entries_by_name() {
    let mut p = package();
    p.scripts = vec![
        ScriptBlock { id: "script:0".to_string(), name: "scr_a".to_string(), kind: "script".to_string() },
        ScriptBlock { id: "script:1".to_string(), name: "scr_b".to_string(), kind: "timeline".to_string() },
        ScriptBlock { id: "script:9".to_string(), name: "scr_c".to_string(), kind: "script".to_string() },
        ScriptBlock { id: "script:2".to_string(), name: "scr_a".to_string(), kind: "script".to_string() },
    ];
    let entries = vec![entry("script:0"), entry("script:1"), entry("script:2")];
    let index = lowered_logic_index(&entries);
    let scripts = lowered_script_entries(&p, &index, &entries);
    assert_eq!(scripts.len(), 1);
    assert_eq!(scripts.get("scr_a").map(|e| e.block_id.clone()), Some("script:2".to_string()));
    assert!(scripts.get("scr_b").is_none());
    assert!(scripts.get("scr_c").is_none());
}

fn live(object_id: usize, alive: bool) -> RuntimeInstance<f64> {
    RuntimeInstance {
        runtime_id: 0,
        instance_id: 0,
        object_id,
        object_name: String::new(),
        x: 0.0,
        y: 0.0,
        previous_x: 0.0,
        previous_y: 0.0,
        hspeed: 0.0,
        vspeed: 0.0,
        width: 1,
        height: 1,
        origin_x: 0,
        origin_y: 0,
        bbox_left: 0,
        bbox_right: 0,
        bbox_top: 0,
        bbox_bottom: 0,
        facing_left: false,
        alive,
        solid: false,
        hazard: false,
        checkpoint: false,
        player_candidate: false,
        persistent: false,
        visible: true,
        collision_masks: Vec::new(),
        vars: HashMap::new(),
    }
}

#[test]
fn dispatches_list_live_instances_with_entries_in_room_order() {
    let package = package();
    let entries: Vec<LoweredLogicEntry<f64>> = vec![
        LoweredLogicEntry { block_id: "b:step".to_string(), statements: Vec::new() },
        LoweredLogicEntry { block_id: "s:step2".to_string(), statements: Vec::new() },
    ];
    let index = lowered_logic_index(&entries);
    let instances = vec![live(2, true), live(1, true), live(0, false), live(0, true), live(3, true)];
    let out = event_dispatches(&package, &instances, &index, &entries, RuntimeEventSelector::Step);
    let got: Vec<(usize, Vec<&str>)> =
        out.iter().map(|(i, list)| (*i, list.iter().map(|e| e.block_id.as_str()).collect())).collect();
    assert_eq!(got, vec![(1, vec!["s:step2"]), (3, vec!["b:step"])]);
}

#[test]
fn inheritance_walks_only_the_chain_it_needs() {
    let mut package = package();
    package.objects.push(object(7, "loop_a", 8, vec![]));
    package.objects.push(object(8, "loop_b", 7, vec![]));
    assert!(object_matches_or_inherits_from(&package, 1, 0));
    assert!(!object_matches_or_inherits_from(&package, 1, 2));
    assert!(object_matches_or_inherits_from(&package, 7, 7));
    assert!(object_matches_or_inherits_from(&package, 7, 8));
    assert!(object_matches_or_inherits_from(&package, 99, 99));
}
