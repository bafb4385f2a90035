//! Where a room is drawn: the view that is active, the part of the room it
//! shows, and how room coordinates map onto the frame.

use vstd::prelude::*;

use crate::lowered::LoweredLogicExpr;
use crate::model::{RuntimeInstance, RuntimeRoomState, RuntimeView};
use crate::text::{spec_ascii_lower, str_eq, to_ascii_lowercase};

verus! {

/// The view a room is drawn through: the part of the room shown (source) and
/// where in the frame it is shown (port).
#[derive(Clone, Copy, Debug, PartialEq, Eq)]
pub struct ActiveView {
    pub source_x: i32,
    pub source_y: i32,
    pub source_w: u32,
    pub source_h: u32,
    pub port_x: i32,
    pub port_y: i32,
    pub port_w: u32,
    pub port_h: u32,
}

/// Whether `v` fits in an `i32`.
pub open spec fn spec_fits_i32(v: int) -> bool {
    i32::MIN <= v <= i32::MAX
}

/// `a` where it is at least `b`, else `b`.
pub open spec fn spec_max(a: int, b: int) -> int {
    if a >= b { a } else { b }
}

impl ActiveView {
    /// The source rectangle as left, top, right and bottom edges (right and
    /// bottom exclusive).
    pub fn source_bounds(self) -> (r: (i32, i32, i32, i32))
        requires
            spec_fits_i32(self.source_x + (self.source_w as i32)),
            spec_fits_i32(self.source_y + (self.source_h as i32)),
        ensures
            r == (
                self.source_x,
                self.source_y,
                (self.source_x + (self.source_w as i32)) as i32,
                (self.source_y + (self.source_h as i32)) as i32,
            ),
    {
        (self.source_x, self.source_y, self.source_x + self.source_w as i32, self.source_y + self.source_h as i32)
    }

    /// The frame width the view needs: the port's right edge, counting a
    /// negative port position as 0, and at least 1.
    pub fn frame_width(self) -> (r: u32)
        requires
            spec_max(self.port_x as int, 0) + self.port_w <= u32::MAX,
        ensures
            r == spec_max(spec_max(self.port_x as int, 0) + self.port_w, 1),
    {
        let x: u32 = if self.port_x >= 0 { self.port_x as u32 } else { 0 };
        let w = x + self.port_w;
        if w >= 1 { w } else { 1 }
    }

    /// The frame height the view needs: the port's bottom edge, counting a
    /// negative port position as 0, and at least 1.
    pub fn frame_height(self) -> (r: u32)
        requires
            spec_max(self.port_y as int, 0) + self.port_h <= u32::MAX,
        ensures
            r == spec_max(spec_max(self.port_y as int, 0) + self.port_h, 1),
    {
        let y: u32 = if self.port_y >= 0 { self.port_y as u32 } else { 0 };
        let h = y + self.port_h;
        if h >= 1 { h } else { 1 }
    }

    /// The frame x coordinate of room x coordinate `x`.
    pub fn translate_x(self, x: i32) -> (r: i32)
        requires
            spec_fits_i32(x - self.source_x),
            spec_fits_i32(x - self.source_x + self.port_x),
        ensures
            r == x - self.source_x + self.port_x,
    {
        x - self.source_x + self.port_x
    }

    /// The frame y coordinate of room y coordinate `y`.
    pub fn translate_y(self, y: i32) -> (r: i32)
        requires
            spec_fits_i32(y - self.source_y),
            spec_fits_i32(y - self.source_y + self.port_y),
        ensures
            r == y - self.source_y + self.port_y,
    {
        y - self.source_y + self.port_y
    }
}

/// Position of the first visible view.
pub open spec fn spec_first_visible_view(views: Seq<RuntimeView>) -> Option<int>
    decreases views.len(),
{
    if views.len() == 0 {
        None
    } else {
        match spec_first_visible_view(views.drop_last()) {
            Some(i) => Some(i),
            None => if views.last().visible { Some(views.len() - 1) } else { None },
        }
    }
}

/// The active view of a room in view terms.
pub open spec fn spec_active_view_of(view: RuntimeView) -> ActiveView {
    ActiveView {
        source_x: view.source_x,
        source_y: view.source_y,
        source_w: view.source_w,
        source_h: view.source_h,
        port_x: view.port_x,
        port_y: view.port_y,
        port_w: view.port_w,
        port_h: view.port_h,
    }
}

/// The view a room is drawn through: where views are enabled, its first
/// visible view, unless that view has an empty source or port.
pub open spec fn spec_active_view_for_room<N>(room: RuntimeRoomState<N>) -> Option<ActiveView> {
    if !room.views_enabled {
        None
    } else {
        match spec_first_visible_view(room.views@) {
            None => None,
            Some(i) => {
                let v = room.views@[i];
                if v.source_w == 0 || v.source_h == 0 || v.port_w == 0 || v.port_h == 0 {
                    None
                } else {
                    Some(spec_active_view_of(v))
                }
            },
        }
    }
}

/// The view `room` is drawn through (see [`spec_active_view_for_room`]).
pub fn active_view_for_room<N>(room: &RuntimeRoomState<N>) -> (r: Option<ActiveView>)
    ensures
        r == spec_active_view_for_room(*room),
{
    if !room.views_enabled {
        return None;
    }
    let mut i: usize = 0;
    while i < room.views.len()
        invariant
            room.views_enabled,
            i <= room.views@.len(),
            spec_first_visible_view(room.views@.take(i as int)) is None,
        decreases room.views@.len() - i,
    {
        assert(room.views@.take(i + 1).drop_last() =~= room.views@.take(i as int));
        let view = room.views[i];
        if view.visible {
            proof {
                assert(room.views@.take(i + 1).last() == view);
                assert(spec_first_visible_view(room.views@.take(i + 1)) == Some(i as int));
                lemma_first_visible_prefix(room.views@, i + 1);
            }
            if view.source_w == 0 || view.source_h == 0 || view.port_w == 0 || view.port_h == 0 {
                return None;
            }
            return Some(
                ActiveView {
                    source_x: view.source_x,
                    source_y: view.source_y,
                    source_w: view.source_w,
                    source_h: view.source_h,
                    port_x: view.port_x,
                    port_y: view.port_y,
                    port_w: view.port_w,
                    port_h: view.port_h,
                },
            );
        }
        i = i + 1;
    }
    assert(room.views@.take(i as int) =~= room.views@);
    None
}

/// A visible view found in a prefix stays the first visible view of the whole.
pub proof fn lemma_first_visible_prefix(views: Seq<RuntimeView>, k: int)
    requires
        0 <= k <= views.len(),
        spec_first_visible_view(views.take(k)) is Some,
    ensures
        spec_first_visible_view(views) == spec_first_visible_view(views.take(k)),
    decreases views.len(),
{
    if k < views.len() {
        assert(views.drop_last().take(k) =~= views.take(k));
        lemma_first_visible_prefix(views.drop_last(), k);
    } else {
        assert(views.take(k) =~= views);
    }
}

/// `view` with the view globals a room start set: each position that is
/// given, and each size that is given.
pub open spec fn spec_view_with_globals(
    view: RuntimeView,
    xview: Option<i32>,
    yview: Option<i32>,
    wview: Option<u32>,
    hview: Option<u32>,
) -> RuntimeView {
    RuntimeView {
        source_x: match xview {
            Some(x) => x,
            None => view.source_x,
        },
        source_y: match yview {
            Some(y) => y,
            None => view.source_y,
        },
        source_w: match wview {
            Some(w) => w,
            None => view.source_w,
        },
        source_h: match hview {
            Some(h) => h,
            None => view.source_h,
        },
        ..view
    }
}

/// Moves the room's first visible view to the view globals that are set:
/// `xview` and `yview` are the rounded `view_xview[0]` and `view_yview[0]`,
/// `wview` and `hview` the rounded `view_wview[0]` and `view_hview[0]` where
/// positive (each read as the plain name where the indexed one is unset).
/// Nothing changes where no view is visible.
pub fn apply_view_globals_to_room<N>(
    room: &mut RuntimeRoomState<N>,
    xview: Option<i32>,
    yview: Option<i32>,
    wview: Option<u32>,
    hview: Option<u32>,
)
    ensures
        final(room).views@ == match spec_first_visible_view(old(room).views@) {
            Some(i) => old(room).views@.update(i, spec_view_with_globals(old(room).views@[i], xview, yview, wview, hview)),
            None => old(room).views@,
        },
        final(room).room_id == old(room).room_id,
        final(room).room_name@ == old(room).room_name@,
        final(room).width == old(room).width,
        final(room).height == old(room).height,
        final(room).speed == old(room).speed,
        final(room).playable == old(room).playable,
        final(room).spawn_point == old(room).spawn_point,
        final(room).views_enabled == old(room).views_enabled,
        final(room).instances@ == old(room).instances@,
{
    let ghost views = room.views@;
    let mut i: usize = 0;
    while i < room.views.len()
        invariant
            i <= views.len(),
            room.views@ == views,
            *room == *old(room),
            spec_first_visible_view(views.take(i as int)) is None,
        decreases views.len() - i,
    {
        assert(views.take(i + 1).drop_last() =~= views.take(i as int));
        let view = room.views[i];
        if view.visible {
            proof {
                assert(views.take(i + 1).last() == view);
                lemma_first_visible_prefix(views, i + 1);
            }
            let updated = RuntimeView {
                source_x: match xview {
                    Some(x) => x,
                    None => view.source_x,
                },
                source_y: match yview {
                    Some(y) => y,
                    None => view.source_y,
                },
                source_w: match wview {
                    Some(w) => w,
                    None => view.source_w,
                },
                source_h: match hview {
                    Some(h) => h,
                    None => view.source_h,
                },
                ..view
            };
            assert(spec_first_visible_view(views) == Some(i as int));
            assert(updated == spec_view_with_globals(view, xview, yview, wview, hview));
            room.views.set(i, updated);
            return;
        }
        i = i + 1;
    }
    assert(views.take(i as int) =~= views);
}

/// Whether the rectangle overlaps the view's rectangle (right and bottom edges
/// exclusive).
pub fn rect_intersects_view(
    left: i32,
    top: i32,
    right: i32,
    bottom: i32,
    view_left: i32,
    view_top: i32,
    view_right: i32,
    view_bottom: i32,
) -> (r: bool)
    ensures
        r == (left < view_right && right > view_left && top < view_bottom && bottom > view_top),
{
    left < view_right && right > view_left && top < view_bottom && bottom > view_top
}

/// The instances the creation code of a room sees: those of the room, then
/// the visible ones created before it, in order.
pub fn create_visible_instances<'a, N>(
    room_state: &'a RuntimeRoomState<N>,
    visible_instances: &'a [RuntimeInstance<N>],
) -> (r: Vec<&'a RuntimeInstance<N>>)
    ensures
        r@.len() == room_state.instances@.len() + visible_instances@.len(),
        forall|i: int| 0 <= i < room_state.instances@.len() ==> *r@[i] == room_state.instances@[i],
        forall|i: int| 0 <= i < visible_instances@.len() ==> *r@[room_state.instances@.len() + i]
            == visible_instances@[i],
{
    let mut out: Vec<&'a RuntimeInstance<N>> = Vec::new();
    let mut i: usize = 0;
    while i < room_state.instances.len()
        invariant
            i <= room_state.instances@.len(),
            out@.len() == i,
            forall|j: int| 0 <= j < i ==> *out@[j] == room_state.instances@[j],
        decreases room_state.instances@.len() - i,
    {
        out.push(&room_state.instances[i]);
        i = i + 1;
    }
    let base = room_state.instances.len();
    let mut k: usize = 0;
    while k < visible_instances.len()
        invariant
            base == room_state.instances@.len(),
            k <= visible_instances@.len(),
            out@.len() == base + k,
            forall|j: int| 0 <= j < base ==> *out@[j] == room_state.instances@[j],
            forall|j: int| 0 <= j < k ==> *out@[base + j] == visible_instances@[j],
        decreases visible_instances@.len() - k,
    {
        out.push(&visible_instances[k]);
        k = k + 1;
    }
    out
}

// ----------------------------------------------------------------------------
// Drawing colours

/// A colour with red, green, blue and alpha channels.
#[derive(Clone, Copy, Debug, PartialEq, Eq)]
pub struct Rgba8 {
    pub r: u8,
    pub g: u8,
    pub b: u8,
    pub a: u8,
}

/// The opaque colour with the given channels.
pub fn rgba(r: u8, g: u8, b: u8) -> (c: Rgba8)
    ensures
        c == (Rgba8 { r, g, b, a: 255 }),
{
    Rgba8 { r, g, b, a: 255 }
}

/// The opaque colour a GML colour number stands for: red in its low byte, then
/// green, then blue.
pub fn gm_colour_number_to_rgba(value: u32) -> (c: Rgba8)
    ensures
        c == (Rgba8 {
            r: (value % 256) as u8,
            g: ((value / 256) % 256) as u8,
            b: ((value / 65536) % 256) as u8,
            a: 255,
        }),
{
    assert((value & 0xff) == value % 256) by (bit_vector);
    assert(((value >> 8) & 0xff) == (value / 256) % 256) by (bit_vector);
    assert(((value >> 16) & 0xff) == (value / 65536) % 256) by (bit_vector);
    rgba((value & 0xff) as u8, ((value >> 8) & 0xff) as u8, ((value >> 16) & 0xff) as u8)
}

/// The colour a GML colour constant names, ignoring ASCII case.
pub open spec fn spec_colour_name(name: Seq<char>) -> Option<Rgba8> {
    let n = spec_ascii_lower(name);
    if n == "c_black"@ {
        Some(Rgba8 { r: 0, g: 0, b: 0, a: 255 })
    } else if n == "c_white"@ {
        Some(Rgba8 { r: 255, g: 255, b: 255, a: 255 })
    } else if n == "c_red"@ {
        Some(Rgba8 { r: 255, g: 0, b: 0, a: 255 })
    } else if n == "c_green"@ {
        Some(Rgba8 { r: 0, g: 128, b: 0, a: 255 })
    } else if n == "c_blue"@ {
        Some(Rgba8 { r: 0, g: 0, b: 255, a: 255 })
    } else if n == "c_yellow"@ {
        Some(Rgba8 { r: 255, g: 255, b: 0, a: 255 })
    } else if n == "c_gray"@ || n == "c_grey"@ {
        Some(Rgba8 { r: 128, g: 128, b: 128, a: 255 })
    } else if n == "c_ltgray"@ || n == "c_ltgrey"@ {
        Some(Rgba8 { r: 192, g: 192, b: 192, a: 255 })
    } else if n == "c_dkgray"@ || n == "c_dkgrey"@ {
        Some(Rgba8 { r: 64, g: 64, b: 64, a: 255 })
    } else {
        None
    }
}

/// The colour a colour argument names where it is an identifier or a string
/// (see [`spec_colour_name`]); a number argument is read as a colour number
/// by the caller, and any other argument names no colour.
pub fn draw_colour_name_arg<N>(expr: &LoweredLogicExpr<N>) -> (r: Option<Rgba8>)
    ensures
        r == match *expr {
            LoweredLogicExpr::Identifier(name) => spec_colour_name(name@),
            LoweredLogicExpr::LiteralText(name) => spec_colour_name(name@),
            _ => None,
        },
{
    let lower = match expr {
        LoweredLogicExpr::Identifier(name) => to_ascii_lowercase(name.as_str()),
        LoweredLogicExpr::LiteralText(name) => to_ascii_lowercase(name.as_str()),
        _ => return None,
    };
    let n = lower.as_str();
    if str_eq(n, "c_black") {
        Some(rgba(0, 0, 0))
    } else if str_eq(n, "c_white") {
        Some(rgba(255, 255, 255))
    } else if str_eq(n, "c_red") {
        Some(rgba(255, 0, 0))
    } else if str_eq(n, "c_green") {
        Some(rgba(0, 128, 0))
    } else if str_eq(n, "c_blue") {
        Some(rgba(0, 0, 255))
    } else if str_eq(n, "c_yellow") {
        Some(rgba(255, 255, 0))
    } else if str_eq(n, "c_gray") || str_eq(n, "c_grey") {
        Some(rgba(128, 128, 128))
    } else if str_eq(n, "c_ltgray") || str_eq(n, "c_ltgrey") {
        Some(rgba(192, 192, 192))
    } else if str_eq(n, "c_dkgray") || str_eq(n, "c_dkgrey") {
        Some(rgba(64, 64, 64))
    } else {
        None
    }
}

/// Each GML colour constant names its colour, whatever the case of its
/// letters: `c_black` is opaque black, `c_white` opaque white, `c_blue`
/// opaque blue, and so on, grey spelt either way; and only these names
/// name a colour.
pub proof fn law_colour_constants_name_their_colours(name: Seq<char>)
    ensures
        spec_ascii_lower(name) == "c_black"@ ==> spec_colour_name(name) == Some(Rgba8 { r: 0, g: 0, b: 0, a: 255 }),
        spec_ascii_lower(name) == "c_white"@ ==> spec_colour_name(name) == Some(Rgba8 { r: 255, g: 255, b: 255, a: 255 }),
        spec_ascii_lower(name) == "c_red"@ ==> spec_colour_name(name) == Some(Rgba8 { r: 255, g: 0, b: 0, a: 255 }),
        spec_ascii_lower(name) == "c_green"@ ==> spec_colour_name(name) == Some(Rgba8 { r: 0, g: 128, b: 0, a: 255 }),
        spec_ascii_lower(name) == "c_blue"@ ==> spec_colour_name(name) == Some(Rgba8 { r: 0, g: 0, b: 255, a: 255 }),
        spec_ascii_lower(name) == "c_yellow"@ ==> spec_colour_name(name) == Some(Rgba8 { r: 255, g: 255, b: 0, a: 255 }),
        spec_ascii_lower(name) == "c_gray"@ ==> spec_colour_name(name) == Some(Rgba8 { r: 128, g: 128, b: 128, a: 255 }),
        spec_ascii_lower(name) == "c_grey"@ ==> spec_colour_name(name) == Some(Rgba8 { r: 128, g: 128, b: 128, a: 255 }),
        spec_ascii_lower(name) == "c_ltgray"@ ==> spec_colour_name(name) == Some(Rgba8 { r: 192, g: 192, b: 192, a: 255 }),
        spec_ascii_lower(name) == "c_ltgrey"@ ==> spec_colour_name(name) == Some(Rgba8 { r: 192, g: 192, b: 192, a: 255 }),
        spec_ascii_lower(name) == "c_dkgray"@ ==> spec_colour_name(name) == Some(Rgba8 { r: 64, g: 64, b: 64, a: 255 }),
        spec_ascii_lower(name) == "c_dkgrey"@ ==> spec_colour_name(name) == Some(Rgba8 { r: 64, g: 64, b: 64, a: 255 }),
        spec_colour_name(name) is Some ==> spec_ascii_lower(name) == "c_black"@
            || spec_ascii_lower(name) == "c_white"@
            || spec_ascii_lower(name) == "c_red"@
            || spec_ascii_lower(name) == "c_green"@
            || spec_ascii_lower(name) == "c_blue"@
            || spec_ascii_lower(name) == "c_yellow"@
            || spec_ascii_lower(name) == "c_gray"@
            || spec_ascii_lower(name) == "c_grey"@
            || spec_ascii_lower(name) == "c_ltgray"@
            || spec_ascii_lower(name) == "c_ltgrey"@
            || spec_ascii_lower(name) == "c_dkgray"@
            || spec_ascii_lower(name) == "c_dkgrey"@,
{
    reveal_strlit("c_black");
    reveal_strlit("c_white");
    reveal_strlit("c_red");
    reveal_strlit("c_green");
    reveal_strlit("c_blue");
    reveal_strlit("c_yellow");
    reveal_strlit("c_gray");
    reveal_strlit("c_grey");
    reveal_strlit("c_ltgray");
    reveal_strlit("c_ltgrey");
    reveal_strlit("c_dkgray");
    reveal_strlit("c_dkgrey");
    assert("c_white"@[2] != "c_black"@[2]);
    assert("c_red"@.len() != "c_black"@.len());
    assert("c_red"@.len() != "c_white"@.len());
    assert("c_green"@[2] != "c_black"@[2]);
    assert("c_green"@[2] != "c_white"@[2]);
    assert("c_green"@.len() != "c_red"@.len());
    assert("c_blue"@.len() != "c_black"@.len());
    assert("c_blue"@.len() != "c_white"@.len());
    assert("c_blue"@.len() != "c_red"@.len());
    assert("c_blue"@.len() != "c_green"@.len());
    assert("c_yellow"@.len() != "c_black"@.len());
    assert("c_yellow"@.len() != "c_white"@.len());
    assert("c_yellow"@.len() != "c_red"@.len());
    assert("c_yellow"@.len() != "c_green"@.len());
    assert("c_yellow"@.len() != "c_blue"@.len());
    assert("c_gray"@.len() != "c_black"@.len());
    assert("c_gray"@.len() != "c_white"@.len());
    assert("c_gray"@.len() != "c_red"@.len());
    assert("c_gray"@.len() != "c_green"@.len());
    assert("c_gray"@[2] != "c_blue"@[2]);
    assert("c_gray"@.len() != "c_yellow"@.len());
    assert("c_grey"@.len() != "c_black"@.len());
    assert("c_grey"@.len() != "c_white"@.len());
    assert("c_grey"@.len() != "c_red"@.len());
    assert("c_grey"@.len() != "c_green"@.len());
    assert("c_grey"@[2] != "c_blue"@[2]);
    assert("c_grey"@.len() != "c_yellow"@.len());
    assert("c_grey"@[4] != "c_gray"@[4]);
    assert("c_ltgray"@.len() != "c_black"@.len());
    assert("c_ltgray"@.len() != "c_white"@.len());
    assert("c_ltgray"@.len() != "c_red"@.len());
    assert("c_ltgray"@.len() != "c_green"@.len());
    assert("c_ltgray"@.len() != "c_blue"@.len());
    assert("c_ltgray"@[2] != "c_yellow"@[2]);
    assert("c_ltgray"@.len() != "c_gray"@.len());
    assert("c_ltgray"@.len() != "c_grey"@.len());
    assert("c_ltgrey"@.len() != "c_black"@.len());
    assert("c_ltgrey"@.len() != "c_white"@.len());
    assert("c_ltgrey"@.len() != "c_red"@.len());
    assert("c_ltgrey"@.len() != "c_green"@.len());
    assert("c_ltgrey"@.len() != "c_blue"@.len());
    assert("c_ltgrey"@[2] != "c_yellow"@[2]);
    assert("c_ltgrey"@.len() != "c_gray"@.len());
    assert("c_ltgrey"@.len() != "c_grey"@.len());
    assert("c_ltgrey"@[6] != "c_ltgray"@[6]);
    assert("c_dkgray"@.len() != "c_black"@.len());
    assert("c_dkgray"@.len() != "c_white"@.len());
    assert("c_dkgray"@.len() != "c_red"@.len());
    assert("c_dkgray"@.len() != "c_green"@.len());
    assert("c_dkgray"@.len() != "c_blue"@.len());
    assert("c_dkgray"@[2] != "c_yellow"@[2]);
    assert("c_dkgray"@.len() != "c_gray"@.len());
    assert("c_dkgray"@.len() != "c_grey"@.len());
    assert("c_dkgray"@[2] != "c_ltgray"@[2]);
    assert("c_dkgray"@[2] != "c_ltgrey"@[2]);
    assert("c_dkgrey"@.len() != "c_black"@.len());
    assert("c_dkgrey"@.len() != "c_white"@.len());
    assert("c_dkgrey"@.len() != "c_red"@.len());
    assert("c_dkgrey"@.len() != "c_green"@.len());
    assert("c_dkgrey"@.len() != "c_blue"@.len());
    assert("c_dkgrey"@[2] != "c_yellow"@[2]);
    assert("c_dkgrey"@.len() != "c_gray"@.len());
    assert("c_dkgrey"@.len() != "c_grey"@.len());
    assert("c_dkgrey"@[2] != "c_ltgray"@[2]);
    assert("c_dkgrey"@[2] != "c_ltgrey"@[2]);
    assert("c_dkgrey"@[6] != "c_dkgray"@[6]);
}

/// A room is drawn through a view only where views are enabled, and then
/// through its first visible view, exactly when that view's source and port
/// are both non-empty; the view shown is that view's rectangles.
pub proof fn law_rooms_show_their_first_visible_view<N>(room: RuntimeRoomState<N>)
    ensures
        !room.views_enabled ==> spec_active_view_for_room(room) is None,
        spec_active_view_for_room(room) matches Some(v) ==> room.views_enabled && exists|i: int|
            0 <= i < room.views@.len() && (#[trigger] room.views@[i]).visible && v == spec_active_view_of(room.views@[i])
                && v.source_w > 0 && v.source_h > 0 && v.port_w > 0 && v.port_h > 0 && forall|j: int|
                0 <= j < i ==> !(#[trigger] room.views@[j]).visible,
        room.views_enabled && (forall|j: int| 0 <= j < room.views@.len() ==> !(#[trigger] room.views@[j]).visible)
            ==> spec_active_view_for_room(room) is None,
{
    lemma_first_visible_view(room.views@);
}

proof fn lemma_first_visible_view(views: Seq<RuntimeView>)
    ensures
        spec_first_visible_view(views) matches Some(i) ==> 0 <= i < views.len() && views[i].visible && forall|j: int|
            0 <= j < i ==> !(#[trigger] views[j]).visible,
        (forall|j: int| 0 <= j < views.len() ==> !(#[trigger] views[j]).visible) ==> spec_first_visible_view(views) is None,
        spec_first_visible_view(views) is None ==> forall|j: int| 0 <= j < views.len() ==> !(#[trigger] views[j]).visible,
    decreases views.len(),
{
    if views.len() > 0 {
        lemma_first_visible_view(views.drop_last());
        let prev = views.drop_last();
        if spec_first_visible_view(prev) is Some {
            let i = spec_first_visible_view(prev)->0;
            assert forall|j: int| 0 <= j < i implies !(#[trigger] views[j]).visible by {
                assert(views[j] == prev[j]);
            }
            assert(views[i] == prev[i]);
        } else {
            if (forall|j: int| 0 <= j < views.len() ==> !(#[trigger] views[j]).visible) {
                assert(!views[views.len() - 1].visible);
                assert forall|j: int| 0 <= j < prev.len() implies !(#[trigger] prev[j]).visible by {
                    assert(prev[j] == views[j]);
                }
            }
            assert forall|j: int| 0 <= j < views.len() - 1 implies !(#[trigger] views[j]).visible by {
                assert(views[j] == prev[j]);
            }
        }
    }
}

} // verus!
