//! The runtime's data: values, instances, rooms and the object definitions of a
//! package, holding as plain values what the library's logic reads.

use std::collections::HashMap;

use vstd::prelude::*;

verus! {

/// A GML value. `N` is the runtime's number representation.
#[derive(Clone, Debug)]
pub enum RuntimeValue<N> {
    Number(N),
    Bool(bool),
    Text(String),
}

/// A per-pixel collision mask of a sprite frame, row-major.
#[derive(Clone, Debug)]
pub struct RuntimeCollisionMask {
    pub width: u32,
    pub height: u32,
    pub bbox_left: i32,
    pub bbox_right: i32,
    pub bbox_top: i32,
    pub bbox_bottom: i32,
    pub data: Vec<bool>,
}

/// One live object instance of the current room. `N` is the runtime's number
/// representation, used for positions and speeds.
#[derive(Clone, Debug)]
pub struct RuntimeInstance<N> {
    pub runtime_id: usize,
    pub instance_id: i32,
    pub object_id: usize,
    pub object_name: String,
    pub x: N,
    pub y: N,
    pub previous_x: N,
    pub previous_y: N,
    pub hspeed: N,
    pub vspeed: N,
    pub width: i32,
    pub height: i32,
    pub origin_x: i32,
    pub origin_y: i32,
    pub bbox_left: i32,
    pub bbox_right: i32,
    pub bbox_top: i32,
    pub bbox_bottom: i32,
    pub facing_left: bool,
    pub alive: bool,
    pub solid: bool,
    pub hazard: bool,
    pub checkpoint: bool,
    pub player_candidate: bool,
    pub persistent: bool,
    pub visible: bool,
    pub collision_masks: Vec<RuntimeCollisionMask>,
    pub vars: HashMap<String, RuntimeValue<N>>,
}

/// A view of a room: the part of the room shown, and where on screen.
#[derive(Clone, Copy, Debug, PartialEq, Eq)]
pub struct RuntimeView {
    pub visible: bool,
    pub source_x: i32,
    pub source_y: i32,
    pub source_w: u32,
    pub source_h: u32,
    pub port_x: i32,
    pub port_y: i32,
    pub port_w: u32,
    pub port_h: u32,
}

/// The state of the room being played.
#[derive(Clone, Debug)]
pub struct RuntimeRoomState<N> {
    pub room_id: usize,
    pub room_name: String,
    pub width: u32,
    pub height: u32,
    pub speed: u32,
    pub playable: bool,
    pub spawn_point: Option<(i32, i32)>,
    pub views_enabled: bool,
    pub views: Vec<RuntimeView>,
    pub instances: Vec<RuntimeInstance<N>>,
}

/// One event of an object: GM8 event type and sub-event, the event's tag and the
/// lowered code block that runs for it.
#[derive(Clone, Debug)]
pub struct ObjectEvent {
    pub event_type: usize,
    pub sub_event: u32,
    pub event_tag: String,
    pub block_id: String,
}

/// An object definition of a package. A negative `parent_index` means no parent.
#[derive(Clone, Debug)]
pub struct ObjectDefinition {
    pub id: usize,
    pub name: String,
    pub parent_index: i32,
    pub solid: bool,
    pub is_player: bool,
    pub is_hazard: Option<bool>,
    pub is_checkpoint: Option<bool>,
    pub sprite_index: i32,
    pub mask_index: i32,
    pub depth: i32,
    pub events: Vec<ObjectEvent>,
}

/// The size, origin and bounding box of a sprite of a package.
#[derive(Clone, Copy, Debug, PartialEq, Eq)]
pub struct SpriteResource {
    pub id: usize,
    pub width: u32,
    pub height: u32,
    pub origin_x: i32,
    pub origin_y: i32,
    pub bbox_left: u32,
    pub bbox_right: u32,
    pub bbox_top: u32,
    pub bbox_bottom: u32,
}

/// A code block of a package's scripts: its block id, the name code calls it
/// by, and its kind (`script` for a script).
#[derive(Clone, Debug)]
pub struct ScriptBlock {
    pub id: String,
    pub name: String,
    pub kind: String,
}

/// The parts of a game package that the runtime's tables are built from: its
/// object definitions, its script blocks, its sprites, the ids of its rooms in
/// definition order, the room order its manifest names (empty where it names
/// none), and the room its manifest boots into, if it names one.
#[derive(Clone, Debug)]
pub struct RuntimePackage {
    pub objects: Vec<ObjectDefinition>,
    pub scripts: Vec<ScriptBlock>,
    pub sprites: Vec<SpriteResource>,
    pub room_ids: Vec<usize>,
    pub manifest_room_order: Vec<usize>,
    pub default_room_id: Option<usize>,
}

} // verus!
