//! Building a render frame: the draw commands of the current room, in the
//! order they are drawn, and the frame's size.

use vstd::prelude::*;

use crate::model::{RuntimeInstance, RuntimeRoomState};
use crate::render::{
    active_view_for_room, gm_colour_number_to_rgba, rect_intersects_view, spec_active_view_for_room, spec_fits_i32,
    spec_max, ActiveView, Rgba8,
};

verus! {

/// One drawing instruction for the host. `N` is the runtime's number
/// representation, used for scales, alpha and angles.
#[derive(Clone, Debug)]
pub enum RuntimeDrawCommand<N> {
    Clear { colour: Rgba8 },
    DrawBackground {
        background_id: usize,
        x: i32,
        y: i32,
        stretch: bool,
        tile_horz: bool,
        tile_vert: bool,
        is_foreground: bool,
    },
    DrawTile {
        background_id: usize,
        x: i32,
        y: i32,
        tile_x: i32,
        tile_y: i32,
        width: u32,
        height: u32,
        xscale: N,
        yscale: N,
    },
    DrawSprite {
        sprite_id: usize,
        frame_index: usize,
        x: i32,
        y: i32,
        origin_x: i32,
        origin_y: i32,
        xscale: N,
        yscale: N,
        alpha: N,
        angle_degrees: N,
    },
    DrawText {
        text: String,
        x: i32,
        y: i32,
        size: u32,
        font_name: Option<String>,
        font_bold: bool,
        font_italic: bool,
        colour: Rgba8,
        align: String,
    },
    Present,
}

/// A frame for the host to draw: the tick and room it shows, its size, and its
/// draw commands in order.
#[derive(Clone, Debug)]
pub struct RuntimeRenderFrame<N> {
    pub tick: u64,
    pub room_id: Option<usize>,
    pub width: u32,
    pub height: u32,
    pub commands: Vec<RuntimeDrawCommand<N>>,
}

/// A background layer of a room definition.
#[derive(Clone, Copy, Debug)]
pub struct RoomBackgroundLayer {
    pub visible_on_start: bool,
    pub is_foreground: bool,
    pub source_bg: i32,
    pub xoffset: i32,
    pub yoffset: i32,
    pub stretch: bool,
    pub tile_horz: bool,
    pub tile_vert: bool,
}

/// A tile of a room definition: the part of background `source_bg` at
/// (`tile_x`, `tile_y`), drawn at (`x`, `y`) with the given size, depth and scale.
#[derive(Clone, Copy, Debug)]
pub struct RoomTile<N> {
    pub source_bg: i32,
    pub x: i32,
    pub y: i32,
    pub tile_x: i32,
    pub tile_y: i32,
    pub width: u32,
    pub height: u32,
    pub depth: i32,
    pub xscale: N,
    pub yscale: N,
}

/// What a frame draws of a room definition: whether the screen is cleared and
/// with which colour number, its background layers and its tiles.
#[derive(Clone, Debug)]
pub struct RoomLayout<N> {
    pub clear_screen: bool,
    pub background_colour: u32,
    pub backgrounds: Vec<RoomBackgroundLayer>,
    pub tiles: Vec<RoomTile<N>>,
}

/// The size and origin of a sprite.
#[derive(Clone, Copy, Debug, PartialEq, Eq)]
pub struct SpriteFrameSize {
    pub width: i32,
    pub height: i32,
    pub origin_x: i32,
    pub origin_y: i32,
}

/// How an instance of the room is drawn, as its variables give it: whether its
/// object exists, whether it is visible, its sprite (negative for none) and
/// that sprite's size where the package has it, its position rounded to whole
/// pixels, its depth, frame, scales, alpha and angle.
#[derive(Clone, Copy, Debug)]
pub struct InstanceSprite<N> {
    pub has_object: bool,
    pub visible: bool,
    pub sprite_id: i32,
    pub sprite: Option<SpriteFrameSize>,
    pub x: i32,
    pub y: i32,
    pub depth: i32,
    pub frame_index: usize,
    pub xscale: N,
    pub yscale: N,
    pub alpha: N,
    pub angle_degrees: N,
}

// ----------------------------------------------------------------------------
// What a frame holds

/// Room x coordinate `x` in frame coordinates.
pub open spec fn spec_frame_x(view: Option<ActiveView>, x: i32) -> int {
    match view {
        Some(v) => x - v.source_x + v.port_x,
        None => x as int,
    }
}

/// Room y coordinate `y` in frame coordinates.
pub open spec fn spec_frame_y(view: Option<ActiveView>, y: i32) -> int {
    match view {
        Some(v) => y - v.source_y + v.port_y,
        None => y as int,
    }
}

/// Moving (`x`, `y`) into frame coordinates stays within `i32`.
pub open spec fn spec_translates(view: Option<ActiveView>, x: i32, y: i32) -> bool {
    match view {
        Some(v) => spec_fits_i32(x - v.source_x) && spec_fits_i32(x - v.source_x + v.port_x) && spec_fits_i32(
            y - v.source_y,
        ) && spec_fits_i32(y - v.source_y + v.port_y),
        None => true,
    }
}

/// The rectangle with edges `left`, `top`, `right`, `bottom` (right and bottom
/// exclusive) is seen through the view; everything is seen without one.
pub open spec fn spec_in_view(view: Option<ActiveView>, left: int, top: int, right: int, bottom: int) -> bool {
    match view {
        Some(v) => left < v.source_x + (v.source_w as i32) && right > v.source_x && top < v.source_y + (
        v.source_h as i32) && bottom > v.source_y,
        None => true,
    }
}

/// The layer is drawn on the background (`foreground` false) or foreground
/// pass.
pub open spec fn spec_layer_drawn(layer: RoomBackgroundLayer, foreground: bool) -> bool {
    layer.visible_on_start && layer.is_foreground == foreground && layer.source_bg >= 0
}

/// The command that draws a background layer.
pub open spec fn spec_layer_command<N>(view: Option<ActiveView>, layer: RoomBackgroundLayer, foreground: bool) -> RuntimeDrawCommand<N> {
    RuntimeDrawCommand::DrawBackground {
        background_id: layer.source_bg as usize,
        x: spec_frame_x(view, layer.xoffset) as i32,
        y: spec_frame_y(view, layer.yoffset) as i32,
        stretch: layer.stretch,
        tile_horz: layer.tile_horz,
        tile_vert: layer.tile_vert,
        is_foreground: foreground,
    }
}

/// The commands of the layers drawn on one pass, in layer order.
pub open spec fn spec_layer_commands<N>(view: Option<ActiveView>, layers: Seq<RoomBackgroundLayer>, foreground: bool) -> Seq<
    RuntimeDrawCommand<N>,
>
    decreases layers.len(),
{
    if layers.len() == 0 {
        Seq::empty()
    } else {
        let rest = spec_layer_commands(view, layers.drop_last(), foreground);
        if spec_layer_drawn(layers.last(), foreground) {
            rest.push(spec_layer_command(view, layers.last(), foreground))
        } else {
            rest
        }
    }
}

/// The tile is drawn: it shows a background and is seen through the view.
pub open spec fn spec_tile_drawn<N>(view: Option<ActiveView>, tile: RoomTile<N>) -> bool {
    tile.source_bg >= 0 && spec_in_view(
        view,
        tile.x as int,
        tile.y as int,
        tile.x + (tile.width as i32),
        tile.y + (tile.height as i32),
    )
}

/// A drawn tile's depth and command.
pub open spec fn spec_tile_item<N>(view: Option<ActiveView>, tile: RoomTile<N>) -> (i32, RuntimeDrawCommand<N>) {
    (
        tile.depth,
        RuntimeDrawCommand::DrawTile {
            background_id: tile.source_bg as usize,
            x: spec_frame_x(view, tile.x) as i32,
            y: spec_frame_y(view, tile.y) as i32,
            tile_x: tile.tile_x,
            tile_y: tile.tile_y,
            width: tile.width,
            height: tile.height,
            xscale: tile.xscale,
            yscale: tile.yscale,
        },
    )
}

/// The depths and commands of the drawn tiles, in tile order.
pub open spec fn spec_tile_items<N>(view: Option<ActiveView>, tiles: Seq<RoomTile<N>>) -> Seq<(i32, RuntimeDrawCommand<N>)>
    decreases tiles.len(),
{
    if tiles.len() == 0 {
        Seq::empty()
    } else {
        let rest = spec_tile_items(view, tiles.drop_last());
        if spec_tile_drawn(view, tiles.last()) {
            rest.push(spec_tile_item(view, tiles.last()))
        } else {
            rest
        }
    }
}

/// The width a sprite is culled with: its own, or 16 where the package lacks it.
pub open spec fn spec_sprite_width<N>(s: InstanceSprite<N>) -> i32 {
    match s.sprite {
        Some(f) => f.width,
        None => 16,
    }
}

/// The height a sprite is culled with: its own, or 16 where the package lacks it.
pub open spec fn spec_sprite_height<N>(s: InstanceSprite<N>) -> i32 {
    match s.sprite {
        Some(f) => f.height,
        None => 16,
    }
}

/// The instance is drawn: it is alive, its object exists, it is visible, it
/// has a sprite, and the sprite is seen through the view.
pub open spec fn spec_sprite_drawn<N>(view: Option<ActiveView>, instance: RuntimeInstance<N>, s: InstanceSprite<N>) -> bool {
    &&& instance.alive
    &&& s.has_object
    &&& s.visible
    &&& s.sprite_id >= 0
    &&& spec_in_view(view, s.x as int, s.y as int, s.x + spec_sprite_width(s), s.y + spec_sprite_height(s))
}

/// A drawn instance's depth and command.
pub open spec fn spec_sprite_item<N>(view: Option<ActiveView>, s: InstanceSprite<N>) -> (i32, RuntimeDrawCommand<N>) {
    (
        s.depth,
        RuntimeDrawCommand::DrawSprite {
            sprite_id: s.sprite_id as usize,
            frame_index: s.frame_index,
            x: spec_frame_x(view, s.x) as i32,
            y: spec_frame_y(view, s.y) as i32,
            origin_x: match s.sprite {
                Some(f) => f.origin_x,
                None => 0,
            },
            origin_y: match s.sprite {
                Some(f) => f.origin_y,
                None => 0,
            },
            xscale: s.xscale,
            yscale: s.yscale,
            alpha: s.alpha,
            angle_degrees: s.angle_degrees,
        },
    )
}

/// The depths and commands of the drawn instances among the first `k`, in
/// room order; `sprites[i]` says how instance `i` is drawn.
pub open spec fn spec_sprite_items<N>(
    view: Option<ActiveView>,
    instances: Seq<RuntimeInstance<N>>,
    sprites: Seq<InstanceSprite<N>>,
    k: int,
) -> Seq<(i32, RuntimeDrawCommand<N>)>
    decreases k,
{
    if k <= 0 {
        Seq::empty()
    } else {
        let rest = spec_sprite_items(view, instances, sprites, k - 1);
        if spec_sprite_drawn(view, instances[k - 1], sprites[k - 1]) {
            rest.push(spec_sprite_item(view, sprites[k - 1]))
        } else {
            rest
        }
    }
}

/// Where an item of depth `depth` goes in a list ordered by descending depth:
/// after every leading item at least as deep.
pub open spec fn spec_depth_position<C>(s: Seq<(i32, C)>, depth: i32) -> int
    decreases s.len(),
{
    if s.len() == 0 {
        0
    } else if s[0].0 < depth {
        0
    } else {
        1 + spec_depth_position(s.drop_first(), depth)
    }
}

/// `items` stably ordered by descending depth: each item in turn goes after
/// the items before it that are at least as deep.
pub open spec fn spec_depth_sorted<C>(items: Seq<(i32, C)>) -> Seq<(i32, C)>
    decreases items.len(),
{
    if items.len() == 0 {
        Seq::empty()
    } else {
        let sorted = spec_depth_sorted(items.drop_last());
        sorted.insert(spec_depth_position(sorted, items.last().0), items.last())
    }
}

/// The commands of `items`, in order.
pub open spec fn spec_item_commands<C>(items: Seq<(i32, C)>) -> Seq<C> {
    items.map_values(|item: (i32, C)| item.1)
}

/// The commands of a frame: the clear where the room clears the screen, the
/// background layers, the drawn tiles then instances by descending depth
/// (in that order where depths are equal), the commands that draw events
/// issued, the foreground layers, and the present.
pub open spec fn spec_frame_commands<N>(
    room: RuntimeRoomState<N>,
    layout: RoomLayout<N>,
    sprites: Seq<InstanceSprite<N>>,
    draw_commands: Seq<RuntimeDrawCommand<N>>,
) -> Seq<RuntimeDrawCommand<N>> {
    let view = spec_active_view_for_room(room);
    let clear: Seq<RuntimeDrawCommand<N>> = if layout.clear_screen {
        seq![RuntimeDrawCommand::Clear { colour: spec_colour_of_number(layout.background_colour) }]
    } else {
        Seq::empty()
    };
    let items = spec_tile_items(view, layout.tiles@) + spec_sprite_items(
        view,
        room.instances@,
        sprites,
        room.instances@.len() as int,
    );
    clear + spec_layer_commands(view, layout.backgrounds@, false) + spec_item_commands(spec_depth_sorted(items))
        + draw_commands + spec_layer_commands(view, layout.backgrounds@, true) + seq![RuntimeDrawCommand::Present]
}

/// The opaque colour of a GML colour number (see
/// [`gm_colour_number_to_rgba`]).
pub open spec fn spec_colour_of_number(value: u32) -> Rgba8 {
    Rgba8 { r: (value % 256) as u8, g: ((value / 256) % 256) as u8, b: ((value / 65536) % 256) as u8, a: 255 }
}

/// The frame width: the active view's, else the display's, else the room's.
pub open spec fn spec_frame_width<N>(room: RuntimeRoomState<N>, display: Option<(u32, u32)>) -> int {
    match spec_active_view_for_room(room) {
        Some(v) => spec_max(spec_max(v.port_x as int, 0) + v.port_w, 1),
        None => match display {
            Some((w, _)) => w as int,
            None => room.width as int,
        },
    }
}

/// The frame height: the active view's, else the display's, else the room's.
pub open spec fn spec_frame_height<N>(room: RuntimeRoomState<N>, display: Option<(u32, u32)>) -> int {
    match spec_active_view_for_room(room) {
        Some(v) => spec_max(spec_max(v.port_y as int, 0) + v.port_h, 1),
        None => match display {
            Some((_, h)) => h as int,
            None => room.height as int,
        },
    }
}

/// Every sum a frame of the room computes stays within its integer type: the
/// view's edges and frame size, the culled rectangles, and the frame
/// coordinates of what is drawn.
pub open spec fn spec_frame_fits<N>(room: RuntimeRoomState<N>, layout: RoomLayout<N>, sprites: Seq<InstanceSprite<N>>) -> bool {
    let view = spec_active_view_for_room(room);
    &&& view matches Some(v) ==> {
        &&& spec_fits_i32(v.source_x + (v.source_w as i32))
        &&& spec_fits_i32(v.source_y + (v.source_h as i32))
        &&& spec_max(v.port_x as int, 0) + v.port_w <= u32::MAX
        &&& spec_max(v.port_y as int, 0) + v.port_h <= u32::MAX
    }
    &&& forall|i: int|
        0 <= i < layout.backgrounds@.len() && layout.backgrounds@[i].visible_on_start
            && layout.backgrounds@[i].source_bg >= 0 ==> spec_translates(
            view,
            #[trigger] layout.backgrounds@[i].xoffset,
            layout.backgrounds@[i].yoffset,
        )
    &&& forall|i: int|
        0 <= i < layout.tiles@.len() && (#[trigger] layout.tiles@[i]).source_bg >= 0 ==> {
            &&& view is Some ==> spec_fits_i32(layout.tiles@[i].x + (layout.tiles@[i].width as i32))
                && spec_fits_i32(layout.tiles@[i].y + (layout.tiles@[i].height as i32))
            &&& spec_tile_drawn(view, layout.tiles@[i]) ==> spec_translates(view, layout.tiles@[i].x, layout.tiles@[i].y)
        }
    &&& forall|i: int|
        0 <= i < room.instances@.len() && room.instances@[i].alive && (#[trigger] sprites[i]).has_object
            && sprites[i].visible && sprites[i].sprite_id >= 0 ==> {
            &&& view is Some ==> spec_fits_i32(sprites[i].x + spec_sprite_width(sprites[i]))
                && spec_fits_i32(sprites[i].y + spec_sprite_height(sprites[i]))
            &&& spec_sprite_drawn(view, room.instances@[i], sprites[i]) ==> spec_translates(
                view,
                sprites[i].x,
                sprites[i].y,
            )
        }
}

/// The items are ordered by descending depth.
pub open spec fn spec_descending<C>(s: Seq<(i32, C)>) -> bool {
    forall|i: int, j: int| 0 <= i < j < s.len() ==> (#[trigger] s[i]).0 >= (#[trigger] s[j]).0
}

/// Ordering is stable: an item joining a list ordered by descending depth
/// goes after every leading item at least as deep as it, and before the
/// first shallower one.
pub proof fn law_later_items_go_after_equal_depths<C>(s: Seq<(i32, C)>, depth: i32)
    ensures
        0 <= spec_depth_position(s, depth) <= s.len(),
        forall|j: int| 0 <= j < spec_depth_position(s, depth) ==> (#[trigger] s[j]).0 >= depth,
        spec_depth_position(s, depth) < s.len() ==> s[spec_depth_position(s, depth)].0 < depth,
    decreases s.len(),
{
    if s.len() > 0 && s[0].0 >= depth {
        let t = s.drop_first();
        law_later_items_go_after_equal_depths(t, depth);
        assert forall|j: int| 0 <= j < spec_depth_position(s, depth) implies (#[trigger] s[j]).0 >= depth by {
            if j > 0 {
                assert(s[j] == t[j - 1]);
            }
        }
        if spec_depth_position(s, depth) < s.len() {
            assert(s[spec_depth_position(s, depth)] == t[spec_depth_position(t, depth)]);
        }
    }
}

/// A position after every leading item at least as deep and before the first
/// shallower one is the one [`spec_depth_position`] gives.
proof fn lemma_depth_position_is<C>(s: Seq<(i32, C)>, depth: i32, p: int)
    requires
        0 <= p <= s.len(),
        forall|j: int| 0 <= j < p ==> (#[trigger] s[j]).0 >= depth,
        p < s.len() ==> s[p].0 < depth,
    ensures
        spec_depth_position(s, depth) == p,
    decreases p,
{
    if p > 0 {
        let t = s.drop_first();
        assert forall|j: int| 0 <= j < p - 1 implies (#[trigger] t[j]).0 >= depth by {
            assert(t[j] == s[j + 1]);
        }
        if p - 1 < t.len() {
            assert(t[p - 1] == s[p]);
        }
        lemma_depth_position_is(t, depth, p - 1);
        assert(s[0].0 >= depth);
    }
}

/// Inserting an item where [`spec_depth_position`] puts it keeps a list
/// ordered by descending depth.
proof fn lemma_insert_keeps_descending<C>(s: Seq<(i32, C)>, item: (i32, C))
    requires
        spec_descending(s),
    ensures
        spec_descending(s.insert(spec_depth_position(s, item.0), item)),
{
    law_later_items_go_after_equal_depths(s, item.0);
    let p = spec_depth_position(s, item.0);
    let t = s.insert(p, item);
    assert forall|i: int, j: int| 0 <= i < j < t.len() implies (#[trigger] t[i]).0 >= (#[trigger] t[j]).0 by {
        if j < p {
            assert(t[i] == s[i] && t[j] == s[j]);
        } else if j == p {
            assert(t[i] == s[i]);
        } else if i < p {
            assert(t[i] == s[i] && t[j] == s[j - 1]);
        } else if i == p {
            assert(t[j] == s[j - 1]);
            assert(s[p].0 < item.0);
            if j - 1 > p {
                assert(s[p].0 >= s[j - 1].0);
            }
        } else {
            assert(t[i] == s[i - 1] && t[j] == s[j - 1]);
        }
    }
}

/// The order of a frame's depth commands: tiles and instances come out by
/// descending depth, all of them and no others.
pub proof fn law_depth_sorted_is_descending<C>(items: Seq<(i32, C)>)
    ensures
        spec_descending(spec_depth_sorted(items)),
        spec_depth_sorted(items).to_multiset() == items.to_multiset(),
    decreases items.len(),
{
    if items.len() > 0 {
        let rest = items.drop_last();
        law_depth_sorted_is_descending(rest);
        let sorted = spec_depth_sorted(rest);
        lemma_insert_keeps_descending(sorted, items.last());
        law_later_items_go_after_equal_depths(sorted, items.last().0);
        let p = spec_depth_position(sorted, items.last().0);
        vstd::seq_lib::to_multiset_insert(sorted, p, items.last());
        assert(items =~= rest.push(items.last()));
        vstd::seq_lib::to_multiset_build(rest, items.last());
        assert(spec_depth_sorted(items) == sorted.insert(p, items.last()));
    } else {
        assert(items =~= Seq::<(i32, C)>::empty());
    }
}

/// Puts `item` into `sorted`, after the items at least as deep as it.
fn insert_by_depth<C>(sorted: &mut Vec<(i32, C)>, item: (i32, C))
    requires
        spec_descending(old(sorted)@),
    ensures
        final(sorted)@ == old(sorted)@.insert(spec_depth_position(old(sorted)@, item.0), item),
        spec_descending(final(sorted)@),
{
    let depth = item.0;
    let mut p: usize = sorted.len();
    while p > 0 && sorted[p - 1].0 < depth
        invariant
            p <= sorted@.len(),
            forall|j: int| p <= j < sorted@.len() ==> (#[trigger] sorted@[j]).0 < depth,
        decreases p,
    {
        p = p - 1;
    }
    proof {
        assert forall|j: int| 0 <= j < p implies (#[trigger] sorted@[j]).0 >= depth by {
            if j < p - 1 {
                assert(sorted@[j].0 >= sorted@[p - 1].0);
            }
        }
        lemma_depth_position_is(sorted@, depth, p as int);
        lemma_insert_keeps_descending(sorted@, item);
    }
    sorted.insert(p, item);
}

/// Appends the commands of `items` to `commands`, in order.
fn append_item_commands<C>(commands: &mut Vec<C>, items: Vec<(i32, C)>)
    ensures
        final(commands)@ == old(commands)@ + spec_item_commands(items@),
{
    let ghost all = items@;
    let mut items = items;
    let mut reversed: Vec<(i32, C)> = Vec::new();
    while items.len() > 0
        invariant
            all == items@ + reversed@.reverse(),
        decreases items@.len(),
    {
        let item = items.pop().unwrap();
        let ghost before = reversed@;
        reversed.push(item);
        assert(reversed@.reverse() =~= seq![item] + before.reverse());
    }
    assert(all =~= reversed@.reverse());
    let ghost start = commands@;
    let ghost n = all.len();
    while reversed.len() > 0
        invariant
            reversed@.len() <= n,
            all.len() == n,
            all.skip(n - reversed@.len()) == reversed@.reverse(),
            commands@ == start + spec_item_commands(all.take(n - reversed@.len())),
        decreases reversed@.len(),
    {
        let ghost k = n - reversed@.len();
        let ghost before = reversed@;
        let item = reversed.pop().unwrap();
        proof {
            assert(before.reverse()[0] == before.last());
            assert(all.skip(k)[0] == all[k]);
            assert(all.skip(k + 1) =~= before.reverse().skip(1));
            assert(reversed@.reverse() =~= before.reverse().skip(1));
            assert(spec_item_commands(all.take(k + 1)) =~= spec_item_commands(all.take(k)).push(all[k].1));
        }
        commands.push(item.1);
    }
    assert(all.take(n as int) =~= all);
}

/// Room coordinates (`x`, `y`) in frame coordinates.
fn frame_xy(view: Option<ActiveView>, x: i32, y: i32) -> (r: (i32, i32))
    requires
        spec_translates(view, x, y),
    ensures
        r.0 == spec_frame_x(view, x),
        r.1 == spec_frame_y(view, y),
{
    match view {
        Some(v) => (v.translate_x(x), v.translate_y(y)),
        None => (x, y),
    }
}

/// Whether the rectangle is seen through the view whose source rectangle is
/// `bounds`; everything is seen without a view.
fn seen(view: Option<ActiveView>, bounds: Option<(i32, i32, i32, i32)>, left: i32, top: i32, right: i32, bottom: i32) -> (r: bool)
    requires
        view matches Some(v) ==> bounds == Some(
            (
                v.source_x,
                v.source_y,
                (v.source_x + (v.source_w as i32)) as i32,
                (v.source_y + (v.source_h as i32)) as i32,
            ),
        ),
        view is None ==> bounds is None,
        view matches Some(v) ==> spec_fits_i32(v.source_x + (v.source_w as i32)) && spec_fits_i32(
            v.source_y + (v.source_h as i32),
        ),
    ensures
        r == spec_in_view(view, left as int, top as int, right as int, bottom as int),
{
    match bounds {
        None => true,
        Some((l, t, r, b)) => rect_intersects_view(left, top, right, bottom, l, t, r, b),
    }
}

/// Appends the commands of the layers drawn on one pass, in layer order.
fn push_layer_commands<N>(
    commands: &mut Vec<RuntimeDrawCommand<N>>,
    view: Option<ActiveView>,
    layers: &Vec<RoomBackgroundLayer>,
    foreground: bool,
)
    requires
        forall|i: int|
            0 <= i < layers@.len() && layers@[i].visible_on_start && layers@[i].source_bg >= 0 ==> spec_translates(
                view,
                #[trigger] layers@[i].xoffset,
                layers@[i].yoffset,
            ),
    ensures
        final(commands)@ == old(commands)@ + spec_layer_commands::<N>(view, layers@, foreground),
{
    let ghost start = commands@;
    let mut i: usize = 0;
    assert(layers@.take(0) =~= Seq::<RoomBackgroundLayer>::empty());
    assert(start + Seq::<RuntimeDrawCommand<N>>::empty() =~= start);
    while i < layers.len()
        invariant
            i <= layers@.len(),
            forall|i: int|
                0 <= i < layers@.len() && layers@[i].visible_on_start && layers@[i].source_bg >= 0 ==> spec_translates(
                    view,
                    #[trigger] layers@[i].xoffset,
                    layers@[i].yoffset,
                ),
            commands@ == start + spec_layer_commands::<N>(view, layers@.take(i as int), foreground),
        decreases layers@.len() - i,
    {
        let layer = layers[i];
        proof {
            assert(layers@.take(i + 1).drop_last() =~= layers@.take(i as int));
            assert(layers@.take(i + 1).last() == layer);
        }
        if layer.visible_on_start && layer.is_foreground == foreground && layer.source_bg >= 0 {
            let (x, y) = frame_xy(view, layer.xoffset, layer.yoffset);
            let ghost before = commands@;
            commands.push(
                RuntimeDrawCommand::DrawBackground {
                    background_id: layer.source_bg as usize,
                    x,
                    y,
                    stretch: layer.stretch,
                    tile_horz: layer.tile_horz,
                    tile_vert: layer.tile_vert,
                    is_foreground: foreground,
                },
            );
            assert(commands@ =~= start + spec_layer_commands::<N>(view, layers@.take(i + 1), foreground));
        }
        i = i + 1;
    }
    assert(layers@.take(i as int) =~= layers@);
}

/// Builds the frame of `room` at `tick`: its size (see [`spec_frame_width`]
/// and [`spec_frame_height`]; `display` is the display size the package asks
/// for, if any) and its commands (see [`spec_frame_commands`]). `sprites[i]`
/// says how instance `i` of the room is drawn; `draw_commands` are those that
/// the draw events issued.
pub fn build_render_frame<N: Copy>(
    tick: u64,
    room: &RuntimeRoomState<N>,
    layout: &RoomLayout<N>,
    sprites: &Vec<InstanceSprite<N>>,
    draw_commands: Vec<RuntimeDrawCommand<N>>,
    display: Option<(u32, u32)>,
) -> (r: RuntimeRenderFrame<N>)
    requires
        sprites@.len() == room.instances@.len(),
        spec_frame_fits(*room, *layout, sprites@),
    ensures
        r.tick == tick,
        r.room_id == Some(room.room_id),
        r.width == spec_frame_width(*room, display),
        r.height == spec_frame_height(*room, display),
        r.commands@ == spec_frame_commands(*room, *layout, sprites@, draw_commands@),
{
    let view = active_view_for_room(room);
    let bounds: Option<(i32, i32, i32, i32)> = match view {
        Some(v) => Some(v.source_bounds()),
        None => None,
    };
    let width: u32 = match view {
        Some(v) => v.frame_width(),
        None => match display {
            Some((w, _)) => w,
            None => room.width,
        },
    };
    let height: u32 = match view {
        Some(v) => v.frame_height(),
        None => match display {
            Some((_, h)) => h,
            None => room.height,
        },
    };

    let mut commands: Vec<RuntimeDrawCommand<N>> = Vec::new();
    if layout.clear_screen {
        commands.push(RuntimeDrawCommand::Clear { colour: gm_colour_number_to_rgba(layout.background_colour) });
    }
    let ghost cleared = commands@;
    push_layer_commands(&mut commands, view, &layout.backgrounds, false);
    let ghost backgrounds = commands@;

    let ghost tiles = layout.tiles@;
    let mut sorted: Vec<(i32, RuntimeDrawCommand<N>)> = Vec::new();
    let mut i: usize = 0;
    assert(tiles.take(0) =~= Seq::<RoomTile<N>>::empty());
    while i < layout.tiles.len()
        invariant
            i <= tiles.len(),
            tiles == layout.tiles@,
            view == spec_active_view_for_room(*room),
            spec_frame_fits(*room, *layout, sprites@),
            view matches Some(v) ==> bounds == Some(
                (
                    v.source_x,
                    v.source_y,
                    (v.source_x + (v.source_w as i32)) as i32,
                    (v.source_y + (v.source_h as i32)) as i32,
                ),
            ),
            view is None ==> bounds is None,
            sorted@ == spec_depth_sorted(spec_tile_items(view, tiles.take(i as int))),
            spec_descending(sorted@),
        decreases tiles.len() - i,
    {
        let tile = layout.tiles[i];
        proof {
            assert(tiles.take(i + 1).drop_last() =~= tiles.take(i as int));
            assert(tiles.take(i + 1).last() == tile);
        }
        if tile.source_bg >= 0 {
            let shown = match view {
                None => true,
                Some(_) => seen(view, bounds, tile.x, tile.y, tile.x + tile.width as i32, tile.y + tile.height as i32),
            };
            if shown {
                let (x, y) = frame_xy(view, tile.x, tile.y);
                let item = (
                    tile.depth,
                    RuntimeDrawCommand::DrawTile {
                        background_id: tile.source_bg as usize,
                        x,
                        y,
                        tile_x: tile.tile_x,
                        tile_y: tile.tile_y,
                        width: tile.width,
                        height: tile.height,
                        xscale: tile.xscale,
                        yscale: tile.yscale,
                    },
                );
                assert(item == spec_tile_item(view, tile));
                proof {
                    let before = spec_tile_items(view, tiles.take(i as int));
                    assert(spec_tile_drawn(view, tile));
                    assert(spec_tile_items(view, tiles.take(i + 1)) == before.push(item));
                    assert(before.push(item).drop_last() =~= before);
                }
                insert_by_depth(&mut sorted, item);
            } else {
                assert(!spec_tile_drawn(view, tile));
            }
        }
        i = i + 1;
    }
    assert(tiles.take(i as int) =~= tiles);
    let ghost tile_items = spec_tile_items(view, tiles);
    assert(tile_items + spec_sprite_items(view, room.instances@, sprites@, 0) =~= tile_items);

    let mut k: usize = 0;
    while k < room.instances.len()
        invariant
            k <= room.instances@.len(),
            sprites@.len() == room.instances@.len(),
            view == spec_active_view_for_room(*room),
            spec_frame_fits(*room, *layout, sprites@),
            view matches Some(v) ==> bounds == Some(
                (
                    v.source_x,
                    v.source_y,
                    (v.source_x + (v.source_w as i32)) as i32,
                    (v.source_y + (v.source_h as i32)) as i32,
                ),
            ),
            view is None ==> bounds is None,
            sorted@ == spec_depth_sorted(tile_items + spec_sprite_items(view, room.instances@, sprites@, k as int)),
            spec_descending(sorted@),
        decreases room.instances@.len() - k,
    {
        let s = sprites[k];
        let ghost before = tile_items + spec_sprite_items(view, room.instances@, sprites@, k as int);
        if room.instances[k].alive && s.has_object && s.visible && s.sprite_id >= 0 {
            let (w, h, ox, oy) = match s.sprite {
                Some(f) => (f.width, f.height, f.origin_x, f.origin_y),
                None => (16i32, 16i32, 0i32, 0i32),
            };
            let shown = match view {
                None => true,
                Some(_) => seen(view, bounds, s.x, s.y, s.x + w, s.y + h),
            };
            if shown {
                let (x, y) = frame_xy(view, s.x, s.y);
                let item = (
                    s.depth,
                    RuntimeDrawCommand::DrawSprite {
                        sprite_id: s.sprite_id as usize,
                        frame_index: s.frame_index,
                        x,
                        y,
                        origin_x: ox,
                        origin_y: oy,
                        xscale: s.xscale,
                        yscale: s.yscale,
                        alpha: s.alpha,
                        angle_degrees: s.angle_degrees,
                    },
                );
                assert(item == spec_sprite_item(view, s));
                proof {
                    assert(tile_items + spec_sprite_items(view, room.instances@, sprites@, k + 1) =~= before.push(item));
                    assert(before.push(item).drop_last() =~= before);
                }
                insert_by_depth(&mut sorted, item);
            } else {
                assert(tile_items + spec_sprite_items(view, room.instances@, sprites@, k + 1) =~= before);
            }
        } else {
            assert(tile_items + spec_sprite_items(view, room.instances@, sprites@, k + 1) =~= before);
        }
        k = k + 1;
    }

    append_item_commands(&mut commands, sorted);
    let ghost depth_drawn = commands@;
    let mut issued = draw_commands;
    commands.append(&mut issued);
    push_layer_commands(&mut commands, view, &layout.backgrounds, true);
    commands.push(RuntimeDrawCommand::Present);
    assert(commands@ =~= spec_frame_commands(*room, *layout, sprites@, draw_commands@));
    RuntimeRenderFrame { tick, room_id: Some(room.room_id), width, height, commands }
}

/// The drawing state of a draw pass: the colour, alignment and font that
/// text is drawn with, and the commands the draw events issued so far.
pub struct RuntimeDrawContext<N> {
    pub colour: Rgba8,
    pub align: String,
    pub size: u32,
    pub font_name: Option<String>,
    pub font_bold: bool,
    pub font_italic: bool,
    pub commands: Vec<RuntimeDrawCommand<N>>,
}

/// The views of an optional string.
pub open spec fn spec_opt_view(s: Option<String>) -> Option<Seq<char>> {
    match s {
        Some(t) => Some(t@),
        None => None,
    }
}

impl<N> RuntimeDrawContext<N> {
    /// The drawing state a draw pass starts with: opaque white, left
    /// aligned, size 16, the default font, and no commands.
    pub fn new() -> (r: Self)
        ensures
            r.colour == (Rgba8 { r: 255, g: 255, b: 255, a: 255 }),
            r.align@ == "left"@,
            r.size == 16,
            r.font_name is None,
            !r.font_bold && !r.font_italic,
            r.commands@.len() == 0,
    {
        RuntimeDrawContext {
            colour: Rgba8 { r: 255, g: 255, b: 255, a: 255 },
            align: "left".to_owned(),
            size: 16,
            font_name: None,
            font_bold: false,
            font_italic: false,
            commands: Vec::new(),
        }
    }

    /// `draw_set_color`: later text is drawn in `colour`.
    pub fn set_colour(&mut self, colour: Rgba8)
        ensures
            final(self).colour == colour,
            final(self).align@ == old(self).align@,
            final(self).size == old(self).size,
            spec_opt_view(final(self).font_name) == spec_opt_view(old(self).font_name),
            final(self).font_bold == old(self).font_bold && final(self).font_italic == old(self).font_italic,
            final(self).commands@ == old(self).commands@,
    {
        self.colour = colour;
    }

    /// `draw_set_halign`: later text is aligned by `align`.
    pub fn set_align(&mut self, align: String)
        ensures
            final(self).colour == old(self).colour,
            final(self).align@ == align@,
            final(self).size == old(self).size,
            spec_opt_view(final(self).font_name) == spec_opt_view(old(self).font_name),
            final(self).font_bold == old(self).font_bold && final(self).font_italic == old(self).font_italic,
            final(self).commands@ == old(self).commands@,
    {
        self.align = align;
    }

    /// `draw_set_font`: later text is drawn with this font.
    pub fn set_font(&mut self, name: Option<String>, size: u32, bold: bool, italic: bool)
        ensures
            final(self).colour == old(self).colour,
            final(self).align@ == old(self).align@,
            final(self).size == size,
            spec_opt_view(final(self).font_name) == spec_opt_view(name),
            final(self).font_bold == bold && final(self).font_italic == italic,
            final(self).commands@ == old(self).commands@,
    {
        self.size = size;
        self.font_name = name;
        self.font_bold = bold;
        self.font_italic = italic;
    }

    /// `draw_text`: issues a command drawing `text` at (`x`, `y`) with the
    /// current colour, alignment and font.
    pub fn draw_text(&mut self, text: String, x: i32, y: i32)
        ensures
            final(self).colour == old(self).colour,
            final(self).align@ == old(self).align@,
            final(self).size == old(self).size,
            spec_opt_view(final(self).font_name) == spec_opt_view(old(self).font_name),
            final(self).font_bold == old(self).font_bold && final(self).font_italic == old(self).font_italic,
            final(self).commands@.len() == old(self).commands@.len() + 1,
            final(self).commands@.drop_last() == old(self).commands@,
            final(self).commands@.last() matches RuntimeDrawCommand::DrawText {
                text: t,
                x: cx,
                y: cy,
                size,
                font_name,
                font_bold,
                font_italic,
                colour,
                align,
            } && t@ == text@ && cx == x && cy == y && size == old(self).size && spec_opt_view(font_name)
                == spec_opt_view(old(self).font_name) && font_bold == old(self).font_bold && font_italic
                == old(self).font_italic && colour == old(self).colour && align@ == old(self).align@,
    {
        let font_name = match &self.font_name {
            Some(n) => Some(n.clone()),
            None => None,
        };
        let command = RuntimeDrawCommand::DrawText {
            text,
            x,
            y,
            size: self.size,
            font_name,
            font_bold: self.font_bold,
            font_italic: self.font_italic,
            colour: self.colour,
            align: self.align.clone(),
        };
        let ghost before = self.commands@;
        self.commands.push(command);
        assert(self.commands@.drop_last() =~= before);
    }

    /// Issues `command`, as `draw_sprite` does with a sprite command.
    pub fn push_command(&mut self, command: RuntimeDrawCommand<N>)
        ensures
            final(self).commands@ == old(self).commands@.push(command),
            final(self).colour == old(self).colour,
            final(self).align@ == old(self).align@,
            final(self).size == old(self).size,
            spec_opt_view(final(self).font_name) == spec_opt_view(old(self).font_name),
            final(self).font_bold == old(self).font_bold && final(self).font_italic == old(self).font_italic,
    {
        self.commands.push(command);
    }

    /// The commands issued, in order, for the frame.
    pub fn finish(self) -> (r: Vec<RuntimeDrawCommand<N>>)
        ensures
            r@ == self.commands@,
    {
        self.commands
    }
}

/// A frame clears the screen first exactly when the room clears it, ends by
/// presenting, draws the background layers before anything else and the
/// foreground layers last, and holds the draw events' commands unchanged
/// and in order right after the tiles and sprites.
pub proof fn law_frame_layers_in_order<N>(
    room: RuntimeRoomState<N>,
    layout: RoomLayout<N>,
    sprites: Seq<InstanceSprite<N>>,
    draw_commands: Seq<RuntimeDrawCommand<N>>,
)
    ensures
        ({
            let view = spec_active_view_for_room(room);
            let f = spec_frame_commands(room, layout, sprites, draw_commands);
            let c: int = if layout.clear_screen { 1 } else { 0 };
            let bg = spec_layer_commands::<N>(view, layout.backgrounds@, false);
            let items = spec_item_commands(
                spec_depth_sorted(
                    spec_tile_items(view, layout.tiles@) + spec_sprite_items(
                        view,
                        room.instances@,
                        sprites,
                        room.instances@.len() as int,
                    ),
                ),
            );
            let fg = spec_layer_commands::<N>(view, layout.backgrounds@, true);
            &&& f.len() == c + bg.len() + items.len() + draw_commands.len() + fg.len() + 1
            &&& f.last() == RuntimeDrawCommand::<N>::Present
            &&& layout.clear_screen ==> f[0] == RuntimeDrawCommand::<N>::Clear {
                colour: spec_colour_of_number(layout.background_colour),
            }
            &&& f.subrange(c, c + bg.len()) == bg
            &&& f.subrange(c + bg.len() + items.len(), c + bg.len() + items.len() + draw_commands.len())
                == draw_commands
            &&& f.subrange(f.len() - 1 - fg.len(), f.len() - 1) == fg
        }),
{
    let view = spec_active_view_for_room(room);
    let f = spec_frame_commands(room, layout, sprites, draw_commands);
    let c: int = if layout.clear_screen { 1 } else { 0 };
    let clear: Seq<RuntimeDrawCommand<N>> = if layout.clear_screen {
        seq![RuntimeDrawCommand::Clear { colour: spec_colour_of_number(layout.background_colour) }]
    } else {
        Seq::empty()
    };
    let bg = spec_layer_commands::<N>(view, layout.backgrounds@, false);
    let items = spec_item_commands(
        spec_depth_sorted(
            spec_tile_items(view, layout.tiles@) + spec_sprite_items(
                view,
                room.instances@,
                sprites,
                room.instances@.len() as int,
            ),
        ),
    );
    let fg = spec_layer_commands::<N>(view, layout.backgrounds@, true);
    assert(f == clear + bg + items + draw_commands + fg + seq![RuntimeDrawCommand::<N>::Present]);
    assert(clear.len() == c);
    assert(f.subrange(c, c + bg.len()) =~= bg);
    assert(f.subrange(c + bg.len() + items.len(), c + bg.len() + items.len() + draw_commands.len()) =~= draw_commands);
    assert(f.subrange(f.len() - 1 - fg.len(), f.len() - 1) =~= fg);
}

} // verus!
