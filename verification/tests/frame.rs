use iwm_runtime_core::frame::{
    build_render_frame, InstanceSprite, RoomBackgroundLayer, RoomLayout, RoomTile, RuntimeDrawCommand, SpriteFrameSize,
};
use iwm_runtime_core::helpers::{final_solid_overlap_resolution, spawn_search_offsets, FinalSolidOverlapResolution};
use iwm_runtime_core::model::{RuntimeInstance, RuntimeRoomState, RuntimeView};
use iwm_runtime_core::render::{apply_view_globals_to_room, Rgba8};
use std::collections::HashMap;

fn instance(alive: bool) -> RuntimeInstance<f64> {
    RuntimeInstance {
        runtime_id: 0,
        instance_id: 0,
        object_id: 0,
        object_name: String::new(),
        x: 0.0,
        y: 0.0,
        previous_x: 0.0,
        previous_y: 0.0,
        hspeed: 0.0,
        vspeed: 0.0,
        width: 1,
        height: 1,
        origin_x: 0,
        origin_y: 0,
        bbox_left: 0,
        bbox_right: 0,
        bbox_top: 0,
        bbox_bottom: 0,
        facing_left: false,
        alive,
        solid: false,
        hazard: false,
        checkpoint: false,
        player_candidate: false,
        persistent: false,
        visible: true,
        collision_masks: Vec::new(),
        vars: HashMap::new(),
    }
}

fn view(visible: bool) -> RuntimeView {
    RuntimeView {
        visible,
        source_x: 100,
        source_y: 50,
        source_w: 200,
        source_h: 100,
        port_x: 10,
        port_y: -5,
        port_w: 300,
        port_h: 150,
    }
}

fn room(views_enabled: bool, instances: Vec<RuntimeInstance<f64>>) -> RuntimeRoomState<f64> {
    RuntimeRoomState {
        room_id: 4,
        room_name: "r".to_string(),
        width: 800,
        height: 600,
        speed: 50,
        playable: true,
        spawn_point: None,
        views_enabled,
        views: vec![view(false), view(true)],
        instances,
    }
}

fn layer(source_bg: i32, is_foreground: bool) -> RoomBackgroundLayer {
    RoomBackgroundLayer {
        visible_on_start: true,
        is_foreground,
        source_bg,
        xoffset: 120,
        yoffset: 60,
        stretch: false,
        tile_horz: true,
        tile_vert: false,
    }
}

fn tile(source_bg: i32, x: i32, depth: i32) -> RoomTile<f64> {
    RoomTile { source_bg, x, y: 60, tile_x: 0, tile_y: 0, width: 16, height: 16, depth, xscale: 1.0, yscale: 1.0 }
}

fn sprite(sprite_id: i32, x: i32, depth: i32) -> InstanceSprite<f64> {
    InstanceSprite {
        has_object: true,
        visible: true,
        sprite_id,
        sprite: Some(SpriteFrameSize { width: 32, height: 32, origin_x: 2, origin_y: 3 }),
        x,
        y: 60,
        depth,
        frame_index: 1,
        xscale: 1.0,
        yscale: 1.0,
        alpha: 1.0,
        angle_degrees: 0.0,
    }
}

fn describe(command: &RuntimeDrawCommand<f64>) -> String {
    match command {
        RuntimeDrawCommand::Clear { colour } => format!("clear {} {} {}", colour.r, colour.g, colour.b),
        RuntimeDrawCommand::DrawBackground { background_id, x, y, is_foreground, .. } => {
            format!("bg {background_id} {x} {y} {is_foreground}")
        }
        RuntimeDrawCommand::DrawTile { background_id, x, y, .. } => format!("tile {background_id} {x} {y}"),
        RuntimeDrawCommand::DrawSprite { sprite_id, x, y, origin_x, .. } => format!("sprite {sprite_id} {x} {y} {origin_x}"),
        RuntimeDrawCommand::DrawText { text, .. } => format!("text {text}"),
        RuntimeDrawCommand::Present => "present".to_string(),
    }
}

fn layout() -> RoomLayout<f64> {
    RoomLayout {
        clear_screen: true,
        background_colour: 0x0000ff,
        backgrounds: vec![layer(1, false), layer(-1, false), layer(2, true)],
        tiles: vec![tile(5, 120, 10), tile(-1, 120, 99), tile(6, 0, 50), tile(7, 130, 10), tile(8, 140, 20)],
    }
}

#[test]
fn frames_draw_in_layer_then_depth_order_through_the_view() {
    let r = room(true, vec![instance(true), instance(false), instance(true), instance(true)]);
    let mut hidden = sprite(9, 150, 15);
    hidden.visible = false;
    let sprites = vec![sprite(3, 150, 10), sprite(4, 150, 100), hidden, sprite(5, 500, 0)];
    let text = RuntimeDrawCommand::DrawText {
        text: "hi".to_string(),
        x: 1,
        y: 2,
        size: 12,
        font_name: None,
        font_bold: false,
        font_italic: false,
        colour: Rgba8 { r: 0, g: 0, b: 0, a: 255 },
        align: "left".to_string(),
    };
    let frame = build_render_frame(7, &r, &layout(), &sprites, vec![text], Some((1024, 768)));
    assert_eq!(frame.tick, 7);
    assert_eq!(frame.room_id, Some(4));
    assert_eq!((frame.width, frame.height), (310, 150));
    let got: Vec<String> = frame.commands.iter().map(describe).collect();
    assert_eq!(
        got,
        vec![
            "clear 255 0 0",
            "bg 1 30 5 false",
            "tile 8 50 5",
            "tile 5 30 5",
            "tile 7 40 5",
            "sprite 3 60 5 2",
            "text hi",
            "bg 2 30 5 true",
            "present",
        ]
    );
}

#[test]
fn frames_without_a_view_use_the_display_or_room_size() {
    let r = room(false, vec![instance(true)]);
    let mut no_size = sprite(3, 500, 0);
    no_size.sprite = None;
    let mut plain = layout();
    plain.clear_screen = false;
    let frame = build_render_frame(0, &r, &plain, &vec![no_size], Vec::new(), Some((1024, 768)));
    assert_eq!((frame.width, frame.height), (1024, 768));
    let got: Vec<String> = frame.commands.iter().map(describe).collect();
    assert_eq!(got[0], "bg 1 120 60 false");
    assert_eq!(got[5], "sprite 3 500 60 0");
    assert_eq!(got.len(), 8);
    let frame = build_render_frame(0, &r, &plain, &vec![no_size], Vec::new(), None);
    assert_eq!((frame.width, frame.height), (800, 600));
}

#[test]
fn view_globals_move_the_first_visible_view() {
    let mut r = room(true, Vec::new());
    apply_view_globals_to_room(&mut r, Some(7), None, Some(64), None);
    assert_eq!((r.views[1].source_x, r.views[1].source_y, r.views[1].source_w, r.views[1].source_h), (7, 50, 64, 100));
    assert_eq!(r.views[0].source_x, 100);
    let mut hidden = room(true, Vec::new());
    hidden.views[1].visible = false;
    apply_view_globals_to_room(&mut hidden, Some(7), Some(8), Some(9), Some(10));
    assert_eq!(hidden.views[1].source_x, 100);
}

#[test]
fn solid_overlaps_resolve_in_order() {
    assert_eq!(final_solid_overlap_resolution(true, 33, 32, false, false, true, true), FinalSolidOverlapResolution::KeepMotion);
    assert_eq!(final_solid_overlap_resolution(false, 33, 32, false, false, false, true), FinalSolidOverlapResolution::PreserveHorizontal);
    assert_eq!(final_solid_overlap_resolution(true, 34, 32, false, false, true, false), FinalSolidOverlapResolution::PreserveVertical);
    assert_eq!(final_solid_overlap_resolution(true, 33, 32, true, false, true, true), FinalSolidOverlapResolution::FullRollback);
}

#[test]
fn spawn_search_tries_up_down_left_right_at_growing_distances() {
    let offsets = spawn_search_offsets(8, 10);
    assert_eq!(offsets.len(), 64);
    assert_eq!(&offsets[..6], &[(0, -1), (0, 1), (-1, 0), (1, 0), (0, -2), (0, 2)]);
    assert_eq!(offsets[63], (16, 0));
    assert_eq!(spawn_search_offsets(20, 32).len(), 128);
}
