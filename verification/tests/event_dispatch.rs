use iwm_runtime_core::event_dispatch::{
    cells_for_bounds, collision_event_target_object_ids, event_owner_id_for_block_id, find_object_index,
    inherited_event_block_id, object_event_block_ids, object_ids_matching_or_inheriting_from,
    object_matches_or_inherits_from, object_parent_id, runtime_instance_indices_by_object_id,
    runtime_instance_indices_by_object_id_from_instances, RuntimeEventSelector,
};
use iwm_runtime_core::model::{ObjectDefinition, ObjectEvent, RuntimeInstance, RuntimePackage, RuntimeRoomState};
use std::collections::HashMap;

fn event(event_type: usize, sub_event: u32, tag: &str, block_id: &str) -> ObjectEvent {
    ObjectEvent {
        event_type,
        sub_event,
        event_tag: tag.to_string(),
        block_id: block_id.to_string(),
    }
}

fn object(id: usize, name: &str, parent_index: i32, events: Vec<ObjectEvent>) -> ObjectDefinition {
    ObjectDefinition {
        id,
        name: name.to_string(),
        parent_index,
        solid: false,
        is_player: false,
        is_hazard: None,
        is_checkpoint: None,
        sprite_index: -1,
        mask_index: -1,
        depth: 0,
        events,
    }
}

/// 0 <- 1 <- 2, and 3 on its own; 1 has a step event and a collision with 3,
/// 0 has a step, a draw and an alarm event.
fn package() -> RuntimePackage {
    RuntimePackage {
        objects: vec![
            object(
                0,
                "obj_base",
                -1,
                vec![
                    event(3, 0, "step", "base:step"),
                    event(8, 0, "draw", "base:draw"),
                    event(2, 1, "alarm:1", "base:alarm1"),
                ],
            ),
            object(
                1,
                "obj_mid",
                0,
                vec![event(3, 0, "step", "mid:step"), event(4, 3, "collision", "mid:collide3")],
            ),
            object(2, "obj_leaf", 1, vec![]),
            object(3, "obj_other", -1, vec![event(3, 0, "step", "other:step"), event(3, 0, "step", "other:step2")]),
        ],
        scripts: Vec::new(),
        sprites: Vec::new(),
        room_ids: vec![0, 1],
        manifest_room_order: Vec::new(),
        default_room_id: None,
    }
}

fn instance(object_id: usize, alive: bool) -> RuntimeInstance<f64> {
    RuntimeInstance {
        runtime_id: 0,
        instance_id: 0,
        object_id,
        object_name: String::new(),
        x: 0.0,
        y: 0.0,
        previous_x: 0.0,
        previous_y: 0.0,
        hspeed: 0.0,
        vspeed: 0.0,
        width: 1,
        height: 1,
        origin_x: 0,
        origin_y: 0,
        bbox_left: 0,
        bbox_right: 0,
        bbox_top: 0,
        bbox_bottom: 0,
        facing_left: false,
        alive,
        solid: false,
        hazard: false,
        checkpoint: false,
        player_candidate: false,
        persistent: false,
        visible: true,
        collision_masks: Vec::new(),
        vars: HashMap::new(),
    }
}

#[test]
fn hierarchy_lookups() {
    let p = package();
    assert_eq!(find_object_index(&p.objects, 2), Some(2));
    assert_eq!(find_object_index(&p.objects, 9), None);
    assert_eq!(object_parent_id(&p.objects, 2), Some(1));
    assert_eq!(object_parent_id(&p.objects, 0), None);
    assert_eq!(object_parent_id(&p.objects, 9), None);
}

#[test]
fn inheritance_is_reflexive_and_transitive() {
    let p = package();
    for id in 0..5 {
        assert!(object_matches_or_inherits_from(&p, id, id));
    }
    assert!(object_matches_or_inherits_from(&p, 2, 1));
    assert!(object_matches_or_inherits_from(&p, 1, 0));
    assert!(object_matches_or_inherits_from(&p, 2, 0));
    assert!(!object_matches_or_inherits_from(&p, 0, 2));
    assert!(!object_matches_or_inherits_from(&p, 3, 0));
}

#[test]
fn ids_inheriting_from_an_object() {
    let p = package();
    assert_eq!(object_ids_matching_or_inheriting_from(&p, 0), vec![0, 1, 2]);
    assert_eq!(object_ids_matching_or_inheriting_from(&p, 1), vec![1, 2]);
    assert_eq!(object_ids_matching_or_inheriting_from(&p, 3), vec![3]);
    assert_eq!(object_ids_matching_or_inheriting_from(&p, 7), Vec::<usize>::new());
}

#[test]
fn event_blocks_come_from_the_nearest_object_that_has_them() {
    let p = package();
    assert_eq!(object_event_block_ids(&p, 2, RuntimeEventSelector::Step), vec!["mid:step".to_string()]);
    assert_eq!(object_event_block_ids(&p, 2, RuntimeEventSelector::Draw), vec!["base:draw".to_string()]);
    assert_eq!(object_event_block_ids(&p, 1, RuntimeEventSelector::Alarm(1)), vec!["base:alarm1".to_string()]);
    assert_eq!(object_event_block_ids(&p, 1, RuntimeEventSelector::Alarm(2)), Vec::<String>::new());
    assert_eq!(
        object_event_block_ids(&p, 3, RuntimeEventSelector::Step),
        vec!["other:step".to_string(), "other:step2".to_string()]
    );
    assert_eq!(object_event_block_ids(&p, 9, RuntimeEventSelector::Step), Vec::<String>::new());
    assert_eq!(
        object_event_block_ids(&p, 2, RuntimeEventSelector::Collision { target_object_id: 3 }),
        vec!["mid:collide3".to_string()]
    );
}

#[test]
fn inherited_event_skips_the_owner() {
    let p = package();
    assert_eq!(
        inherited_event_block_id(&p.objects, 1, &RuntimeEventSelector::Step),
        Some((0, "base:step".to_string()))
    );
    assert_eq!(
        inherited_event_block_id(&p.objects, 2, &RuntimeEventSelector::Step),
        Some((1, "mid:step".to_string()))
    );
    assert_eq!(inherited_event_block_id(&p.objects, 0, &RuntimeEventSelector::Step), None);
    assert_eq!(inherited_event_block_id(&p.objects, 2, &RuntimeEventSelector::Destroy), None);
    // The object that owns an inherited event is one the owner inherits from.
    let (owner, _) = inherited_event_block_id(&p.objects, 2, &RuntimeEventSelector::Draw).unwrap();
    assert_eq!(owner, 0);
    assert!(object_matches_or_inherits_from(&p, 2, owner));
}

#[test]
fn event_owner_by_block_id() {
    let p = package();
    assert_eq!(event_owner_id_for_block_id(&p.objects, "mid:collide3"), Some(1));
    assert_eq!(event_owner_id_for_block_id(&p.objects, "other:step2"), Some(3));
    assert_eq!(event_owner_id_for_block_id(&p.objects, "missing"), None);
}

#[test]
fn collision_targets_are_inherited() {
    let p = package();
    assert_eq!(collision_event_target_object_ids(&p, 1), vec![3]);
    assert_eq!(collision_event_target_object_ids(&p, 2), vec![3]);
    assert_eq!(collision_event_target_object_ids(&p, 0), Vec::<usize>::new());
    assert_eq!(collision_event_target_object_ids(&p, 3), Vec::<usize>::new());
}

#[test]
fn instance_indices_by_object_skip_dead_instances() {
    let instances = vec![instance(5, true), instance(6, true), instance(5, false), instance(5, true)];
    let map = runtime_instance_indices_by_object_id_from_instances(&instances);
    assert_eq!(map.get(&5), Some(&vec![0, 3]));
    assert_eq!(map.get(&6), Some(&vec![1]));
    assert_eq!(map.len(), 2);
    let room = RuntimeRoomState {
        room_id: 0,
        room_name: "r".to_string(),
        width: 100,
        height: 100,
        speed: 50,
        playable: true,
        spawn_point: None,
        views_enabled: false,
        views: vec![],
        instances,
    };
    assert_eq!(runtime_instance_indices_by_object_id(&room), map);
}

#[test]
fn cells_cover_the_bounds() {
    assert_eq!(cells_for_bounds(0, 0, 64, 64), vec![(0, 0)]);
    assert_eq!(cells_for_bounds(0, 0, 65, 64), vec![(0, 0), (1, 0)]);
    assert_eq!(cells_for_bounds(-1, 63, 1, 65), vec![(-1, 0), (0, 0), (-1, 1), (0, 1)]);
    assert_eq!(cells_for_bounds(10, 10, 10, 10), vec![(0, 0)]);
    assert_eq!(cells_for_bounds(-64, -65, -63, -64), vec![(-1, -2)]);
    let cells = cells_for_bounds(-100, -30, 200, 140);
    for px in [-100i32, -1, 0, 63, 64, 199] {
        for py in [-30i32, 0, 139] {
            assert!(cells.contains(&(px.div_euclid(64), py.div_euclid(64))));
        }
    }
}
