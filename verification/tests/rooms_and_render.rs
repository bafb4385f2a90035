use iwm_runtime_core::helpers::{active_collision_mask, is_player_instance, spawn_candidate_is_inside_room};
use iwm_runtime_core::model::{RuntimeCollisionMask, RuntimeInstance, RuntimeRoomState, RuntimeView};
use iwm_runtime_core::lowered::LoweredLogicExpr;
use iwm_runtime_core::render::{
    active_view_for_room, create_visible_instances, draw_colour_name_arg, gm_colour_number_to_rgba, rect_intersects_view,
    rgba, ActiveView, Rgba8,
};
use iwm_runtime_core::room_transitions::{
    add_persistent_instances, persistent_instance_replaces_room_instance, persistent_instances_for_room_transition,
    renumber_runtime_ids,
};
use std::collections::HashMap;

fn instance(runtime_id: usize, instance_id: i32, object_id: usize, name: &str) -> RuntimeInstance<f64> {
    RuntimeInstance {
        runtime_id,
        instance_id,
        object_id,
        object_name: name.to_string(),
        x: 0.0,
        y: 0.0,
        previous_x: 0.0,
        previous_y: 0.0,
        hspeed: 0.0,
        vspeed: 0.0,
        width: 16,
        height: 21,
        origin_x: 5,
        origin_y: 8,
        bbox_left: 0,
        bbox_right: 10,
        bbox_top: 0,
        bbox_bottom: 20,
        facing_left: false,
        alive: true,
        solid: false,
        hazard: false,
        checkpoint: false,
        player_candidate: name.starts_with("player"),
        persistent: false,
        visible: true,
        collision_masks: Vec::new(),
        vars: HashMap::new(),
    }
}

fn view(visible: bool, source_w: u32, port_w: u32) -> RuntimeView {
    RuntimeView {
        visible,
        source_x: 10,
        source_y: 20,
        source_w,
        source_h: 480,
        port_x: -4,
        port_y: 3,
        port_w,
        port_h: 480,
    }
}

fn room(instances: Vec<RuntimeInstance<f64>>) -> RuntimeRoomState<f64> {
    RuntimeRoomState {
        room_id: 2,
        room_name: "room2".to_string(),
        width: 800,
        height: 608,
        speed: 50,
        playable: true,
        spawn_point: Some((32, 32)),
        views_enabled: true,
        views: vec![view(false, 1, 1), view(true, 640, 800), view(true, 320, 320)],
        instances,
    }
}

#[test]
fn players_are_live_candidates_with_player_names() {
    let mut p = instance(0, 1, 1, "player");
    assert!(is_player_instance(&p));
    p.alive = false;
    assert!(!is_player_instance(&p));
    let mut q = instance(0, 1, 1, "obj_block");
    q.player_candidate = true;
    assert!(!is_player_instance(&q));
}

#[test]
fn the_first_mask_is_used_only_when_complete() {
    let mut p = instance(0, 1, 1, "player");
    assert!(active_collision_mask(&p).is_none());
    let mask = RuntimeCollisionMask {
        width: 2,
        height: 2,
        bbox_left: 0,
        bbox_right: 1,
        bbox_top: 0,
        bbox_bottom: 1,
        data: vec![true, false, false, true],
    };
    p.collision_masks.push(mask.clone());
    assert_eq!(active_collision_mask(&p).map(|m| m.data.len()), Some(4));
    let mut short = mask.clone();
    short.data.pop();
    p.collision_masks = vec![short, mask.clone()];
    assert!(active_collision_mask(&p).is_none());
    let mut empty = mask;
    empty.width = 0;
    p.collision_masks = vec![empty];
    assert!(active_collision_mask(&p).is_none());
    let huge = RuntimeCollisionMask {
        width: 65536,
        height: 65536,
        bbox_left: 0,
        bbox_right: 0,
        bbox_top: 0,
        bbox_bottom: 0,
        data: Vec::new(),
    };
    p.collision_masks = vec![huge];
    assert!(active_collision_mask(&p).is_none());
}

#[test]
fn spawn_candidates_must_keep_the_player_inside() {
    let p = instance(0, 1, 1, "player");
    let r = room(Vec::new());
    // Bounds at (x, y): x - 5 .. x + 6, y - 8 .. y + 13.
    assert!(spawn_candidate_is_inside_room(&p, 5, 8, &r));
    assert!(!spawn_candidate_is_inside_room(&p, 4, 8, &r));
    assert!(!spawn_candidate_is_inside_room(&p, 5, 7, &r));
    assert!(spawn_candidate_is_inside_room(&p, 794, 595, &r));
    assert!(!spawn_candidate_is_inside_room(&p, 795, 595, &r));
    assert!(!spawn_candidate_is_inside_room(&p, 794, 596, &r));
}

#[test]
fn the_active_view_is_the_first_visible_one() {
    let r = room(Vec::new());
    let v = active_view_for_room(&r).unwrap();
    assert_eq!(v.source_w, 640);
    assert_eq!(v.port_w, 800);
    let mut r2 = room(Vec::new());
    r2.views[1].port_w = 0;
    assert_eq!(active_view_for_room(&r2), None);
    let mut r3 = room(Vec::new());
    r3.views_enabled = false;
    assert_eq!(active_view_for_room(&r3), None);
    let mut r4 = room(Vec::new());
    r4.views.clear();
    assert_eq!(active_view_for_room(&r4), None);
}

#[test]
fn view_geometry() {
    let v = ActiveView {
        source_x: 10,
        source_y: 20,
        source_w: 640,
        source_h: 480,
        port_x: -4,
        port_y: 3,
        port_w: 800,
        port_h: 600,
    };
    assert_eq!(v.source_bounds(), (10, 20, 650, 500));
    assert_eq!(v.frame_width(), 800);
    assert_eq!(v.frame_height(), 603);
    assert_eq!(v.translate_x(10), -4);
    assert_eq!(v.translate_y(20), 3);
    assert_eq!(v.translate_x(110), 96);
    let z = ActiveView { port_x: -9, port_w: 0, ..v };
    assert_eq!(z.frame_width(), 1);
}

#[test]
fn rectangles_touching_edges_do_not_intersect() {
    assert!(rect_intersects_view(0, 0, 10, 10, 5, 5, 20, 20));
    assert!(!rect_intersects_view(0, 0, 5, 10, 5, 0, 20, 20));
    assert!(!rect_intersects_view(0, 20, 10, 30, 0, 0, 20, 20));
}

#[test]
fn creation_code_sees_room_then_visible_instances() {
    let r = room(vec![instance(0, 1, 1, "a"), instance(1, 2, 1, "b")]);
    let extra = vec![instance(2, 3, 2, "c")];
    let all = create_visible_instances(&r, &extra);
    let ids: Vec<i32> = all.iter().map(|i| i.instance_id).collect();
    assert_eq!(ids, vec![1, 2, 3]);
    let none = create_visible_instances(&r, &[]);
    assert_eq!(none.len(), 2);
}

#[test]
fn renumbering_sets_ids_to_positions() {
    let mut r = room(vec![instance(7, 1, 1, "a"), instance(7, 2, 1, "b"), instance(0, 3, 1, "c")]);
    renumber_runtime_ids(&mut r);
    let ids: Vec<usize> = r.instances.iter().map(|i| i.runtime_id).collect();
    assert_eq!(ids, vec![0, 1, 2]);
    assert_eq!(r.room_id, 2);
}

#[test]
fn persistent_instances_replace_same_ids_and_players() {
    let player = instance(0, 10, 1, "player");
    let other_player = instance(0, 11, 1, "player");
    let block = instance(0, 10, 5, "block");
    assert!(persistent_instance_replaces_room_instance(&player, &block));
    assert!(persistent_instance_replaces_room_instance(&player, &other_player));
    assert!(persistent_instance_replaces_room_instance(&other_player, &player));
    let other_object_player = instance(0, 12, 2, "player2");
    assert!(!persistent_instance_replaces_room_instance(&player, &other_object_player));
}

#[test]
fn persistent_instances_join_at_the_end() {
    let mut r = room(vec![
        instance(0, 1, 1, "player"),
        instance(1, 2, 5, "block"),
        instance(2, 3, 5, "block"),
    ]);
    let incoming = vec![instance(40, 77, 1, "player"), instance(41, 3, 6, "spike")];
    add_persistent_instances(&mut r, incoming);
    let ids: Vec<(usize, i32)> = r.instances.iter().map(|i| (i.runtime_id, i.instance_id)).collect();
    assert_eq!(ids, vec![(0, 2), (1, 77), (2, 3)]);
    assert_eq!(r.instances[2].object_id, 6);
    let mut unchanged = room(vec![instance(5, 1, 1, "a")]);
    add_persistent_instances(&mut unchanged, Vec::new());
    assert_eq!(unchanged.instances[0].runtime_id, 5);
}

#[test]
fn colour_numbers_are_bgr() {
    assert_eq!(gm_colour_number_to_rgba(0x0000ff), Rgba8 { r: 255, g: 0, b: 0, a: 255 });
    assert_eq!(gm_colour_number_to_rgba(0x00ff00), Rgba8 { r: 0, g: 255, b: 0, a: 255 });
    assert_eq!(gm_colour_number_to_rgba(0xff0000), Rgba8 { r: 0, g: 0, b: 255, a: 255 });
    assert_eq!(gm_colour_number_to_rgba(0xab123456), Rgba8 { r: 0x56, g: 0x34, b: 0x12, a: 255 });
    assert_eq!(rgba(1, 2, 3), Rgba8 { r: 1, g: 2, b: 3, a: 255 });
}

#[test]
fn colour_names() {
    let name = |s: &str| -> LoweredLogicExpr<f64> { LoweredLogicExpr::Identifier(s.to_string()) };
    assert_eq!(draw_colour_name_arg(&name("c_red")), Some(rgba(255, 0, 0)));
    assert_eq!(draw_colour_name_arg(&name("C_GREEN")), Some(rgba(0, 128, 0)));
    assert_eq!(draw_colour_name_arg(&name("c_grey")), Some(rgba(128, 128, 128)));
    assert_eq!(draw_colour_name_arg(&name("c_ltgray")), Some(rgba(192, 192, 192)));
    assert_eq!(draw_colour_name_arg(&name("c_dkgrey")), Some(rgba(64, 64, 64)));
    assert_eq!(draw_colour_name_arg(&LoweredLogicExpr::<f64>::LiteralText("c_white".to_string())), Some(rgba(255, 255, 255)));
    assert_eq!(draw_colour_name_arg(&name("c_orange")), None);
    assert_eq!(draw_colour_name_arg(&LoweredLogicExpr::<f64>::LiteralNumber(255.0)), None);
}

#[test]
fn only_alive_persistent_instances_leave_the_room() {
    assert!(persistent_instances_for_room_transition::<f64>(&None).is_empty());
    let mut a = instance(0, 10, 1, "a");
    a.persistent = true;
    let b = instance(1, 11, 1, "b");
    let mut c = instance(2, 12, 1, "c");
    c.persistent = true;
    c.alive = false;
    let mut d = instance(3, 13, 2, "d");
    d.persistent = true;
    let out = persistent_instances_for_room_transition(&Some(room(vec![a, b, c, d])));
    let ids: Vec<i32> = out.iter().map(|i| i.instance_id).collect();
    assert_eq!(ids, vec![10, 13]);
}
