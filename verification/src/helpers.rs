//! Which instance is the player, which collision mask an instance uses, and
//! whether a spawn candidate keeps the player inside the room.

use vstd::prelude::*;

use crate::model::{RuntimeCollisionMask, RuntimeInstance, RuntimeRoomState};
use crate::text::{spec_ascii_lower, str_eq, to_ascii_lowercase};

verus! {

/// Whether an object name, ASCII-lowercased, is one of the names a player
/// object goes by.
pub open spec fn spec_is_preferred_player_name(name: Seq<char>) -> bool {
    let n = spec_ascii_lower(name);
    ||| n == "player"@
    ||| n == "player2"@
    ||| n == "playerface"@
    ||| n == "obj_player"@
    ||| n == "obj_player2"@
    ||| n == "obj_playerface"@
}

/// Whether `name` names a player object, ignoring ASCII case.
pub fn is_preferred_player_name(name: &str) -> (r: bool)
    ensures
        r == spec_is_preferred_player_name(name@),
{
    let lower = to_ascii_lowercase(name);
    let s = lower.as_str();
    str_eq(s, "player") || str_eq(s, "player2") || str_eq(s, "playerface") || str_eq(s, "obj_player")
        || str_eq(s, "obj_player2") || str_eq(s, "obj_playerface")
}

/// Whether an instance is a live player: a player candidate, alive, of an
/// object named as a player.
pub open spec fn spec_is_player_instance<N>(instance: RuntimeInstance<N>) -> bool {
    instance.player_candidate && instance.alive && spec_is_preferred_player_name(instance.object_name@)
}

/// Whether `instance` is a live player.
pub fn is_player_instance<N>(instance: &RuntimeInstance<N>) -> (r: bool)
    ensures
        r == spec_is_player_instance(*instance),
{
    instance.player_candidate && instance.alive && is_preferred_player_name(instance.object_name.as_str())
}

/// The number of mask pixels `width * height`, 0 where it does not fit in a
/// `u32`.
pub open spec fn spec_mask_expected_len(mask: RuntimeCollisionMask) -> int {
    let n = mask.width * mask.height;
    if n <= u32::MAX { n } else { 0 }
}

/// Whether a mask can be used for per-pixel collision: both sides non-zero,
/// and data for every pixel.
pub open spec fn spec_mask_usable(mask: RuntimeCollisionMask) -> bool {
    &&& mask.width > 0
    &&& mask.height > 0
    &&& spec_mask_expected_len(mask) > 0
    &&& mask.data@.len() >= spec_mask_expected_len(mask)
}

/// The first collision mask of `instance`, where it is usable.
pub fn active_collision_mask<N>(instance: &RuntimeInstance<N>) -> (r: Option<&RuntimeCollisionMask>)
    ensures
        r == (if instance.collision_masks@.len() > 0 && spec_mask_usable(instance.collision_masks@[0]) {
            Some(&instance.collision_masks@[0])
        } else {
            None
        }),
{
    if instance.collision_masks.len() == 0 {
        return None;
    }
    let mask = &instance.collision_masks[0];
    let expected_len: u32 = match mask.width.checked_mul(mask.height) {
        Some(n) => n,
        None => 0,
    };
    if mask.width > 0 && mask.height > 0 && expected_len > 0 && mask.data.len() >= expected_len as usize {
        Some(mask)
    } else {
        None
    }
}

/// The bounding box of `instance` placed at the whole position `(x, y)`, as
/// left, top, right and bottom edges (right and bottom exclusive), each side at
/// least one pixel long.
pub open spec fn spec_bounds_at_int<N>(instance: RuntimeInstance<N>, x: int, y: int) -> (int, int, int, int) {
    let left = x - instance.origin_x + instance.bbox_left;
    let top = y - instance.origin_y + instance.bbox_top;
    let right = x - instance.origin_x + instance.bbox_right + 1;
    let bottom = y - instance.origin_y + instance.bbox_bottom + 1;
    (left, top, if right >= left + 1 { right } else { left + 1 }, if bottom >= top + 1 { bottom } else { top + 1 })
}

/// Whether `v` fits in an `i32`.
pub open spec fn spec_fits_i32(v: int) -> bool {
    i32::MIN <= v <= i32::MAX
}

/// Whether every step of computing the bounding box at `(x, y)` stays within
/// `i32`.
pub open spec fn spec_bounds_fit<N>(instance: RuntimeInstance<N>, x: int, y: int) -> bool {
    &&& spec_fits_i32(x - instance.origin_x)
    &&& spec_fits_i32(y - instance.origin_y)
    &&& spec_fits_i32(x - instance.origin_x + instance.bbox_left)
    &&& spec_fits_i32(y - instance.origin_y + instance.bbox_top)
    &&& spec_fits_i32(x - instance.origin_x + instance.bbox_right)
    &&& spec_fits_i32(y - instance.origin_y + instance.bbox_bottom)
    &&& spec_fits_i32(x - instance.origin_x + instance.bbox_right + 1)
    &&& spec_fits_i32(y - instance.origin_y + instance.bbox_bottom + 1)
    &&& spec_fits_i32(x - instance.origin_x + instance.bbox_left + 1)
    &&& spec_fits_i32(y - instance.origin_y + instance.bbox_top + 1)
}

/// Whether the player, placed at `(x, y)`, lies wholly inside the room.
pub fn spawn_candidate_is_inside_room<N>(
    player: &RuntimeInstance<N>,
    x: i32,
    y: i32,
    room: &RuntimeRoomState<N>,
) -> (r: bool)
    requires
        spec_bounds_fit(*player, x as int, y as int),
    ensures
        r == ({
            let (left, top, right, bottom) = spec_bounds_at_int(*player, x as int, y as int);
            left >= 0 && top >= 0 && right <= (room.width as i32) && bottom <= (room.height as i32)
        }),
{
    let left = x - player.origin_x + player.bbox_left;
    let top = y - player.origin_y + player.bbox_top;
    let right0 = x - player.origin_x + player.bbox_right + 1;
    let bottom0 = y - player.origin_y + player.bbox_bottom + 1;
    let right = if right0 >= left + 1 { right0 } else { left + 1 };
    let bottom = if bottom0 >= top + 1 { bottom0 } else { top + 1 };
    left >= 0 && top >= 0 && right <= room.width as i32 && bottom <= room.height as i32
}

/// How an overlap with a solid instance that is left after a move is undone.
#[derive(Clone, Copy, Debug, PartialEq, Eq)]
pub enum FinalSolidOverlapResolution {
    KeepMotion,
    PreserveHorizontal,
    PreserveVertical,
    FullRollback,
}

/// The resolution of an overlap with a solid instance, from what the
/// collision tests found:
/// - the motion is kept where the instance is not falling, its bottom edge is
///   one pixel below the other's top edge, they did not overlap at their
///   previous positions, and one pixel higher it would not overlap;
/// - else the horizontal move is kept where they do not overlap at their
///   previous y positions;
/// - else the vertical move is kept where they do not overlap at their
///   previous x positions;
/// - else the whole move is undone.
pub fn final_solid_overlap_resolution(
    not_falling: bool,
    instance_bottom: i32,
    other_top: i32,
    overlapped_at_previous_positions: bool,
    overlaps_one_pixel_higher: bool,
    overlaps_at_previous_y: bool,
    overlaps_at_previous_x: bool,
) -> (r: FinalSolidOverlapResolution)
    requires
        i32::MIN <= instance_bottom - other_top <= i32::MAX,
    ensures
        r == (if not_falling && instance_bottom - other_top == 1 && !overlapped_at_previous_positions
            && !overlaps_one_pixel_higher {
            FinalSolidOverlapResolution::KeepMotion
        } else if !overlaps_at_previous_y {
            FinalSolidOverlapResolution::PreserveHorizontal
        } else if !overlaps_at_previous_x {
            FinalSolidOverlapResolution::PreserveVertical
        } else {
            FinalSolidOverlapResolution::FullRollback
        }),
{
    if not_falling && instance_bottom - other_top == 1 && !overlapped_at_previous_positions && !overlaps_one_pixel_higher {
        return FinalSolidOverlapResolution::KeepMotion;
    }
    if !overlaps_at_previous_y {
        return FinalSolidOverlapResolution::PreserveHorizontal;
    }
    if !overlaps_at_previous_x {
        return FinalSolidOverlapResolution::PreserveVertical;
    }
    FinalSolidOverlapResolution::FullRollback
}

/// How far the spawn search goes: the player's larger side, at least 16.
pub open spec fn spec_spawn_search_reach(width: i32, height: i32) -> int {
    if height >= width && height >= 16 {
        height as int
    } else if width >= height && width >= 16 {
        width as int
    } else {
        16
    }
}

/// The offsets the spawn search tries, in order: for each distance from 1 up
/// to the reach, up, down, left, then right by that distance.
pub open spec fn spec_spawn_search_offset(k: int) -> (int, int) {
    let d = k / 4 + 1;
    let dir = k % 4;
    if dir == 0 {
        (0, -d)
    } else if dir == 1 {
        (0, d)
    } else if dir == 2 {
        (-d, 0)
    } else {
        (d, 0)
    }
}

/// The offsets from a blocked spawn point that the search for a free one tries,
/// in order (see [`spec_spawn_search_offset`]).
pub fn spawn_search_offsets(width: i32, height: i32) -> (r: Vec<(i32, i32)>)
    ensures
        r@.len() == 4 * spec_spawn_search_reach(width, height),
        forall|k: int| 0 <= k < r@.len() ==> (#[trigger] r@[k]).0 == spec_spawn_search_offset(k).0 && r@[k].1
            == spec_spawn_search_offset(k).1,
{
    let reach: i32 = if height >= width && height >= 16 {
        height
    } else if width >= height && width >= 16 {
        width
    } else {
        16
    };
    let mut out: Vec<(i32, i32)> = Vec::new();
    let mut done: i32 = 0;
    while done < reach
        invariant
            0 <= done <= reach,
            reach == spec_spawn_search_reach(width, height),
            out@.len() == 4 * done,
            forall|k: int| 0 <= k < out@.len() ==> (#[trigger] out@[k]).0 == spec_spawn_search_offset(k).0
                && out@[k].1 == spec_spawn_search_offset(k).1,
        decreases reach - done,
    {
        let d: i32 = done + 1;
        let ghost base = out@.len() as int;
        out.push((0, -d));
        out.push((0, d));
        out.push((-d, 0));
        out.push((d, 0));
        assert forall|k: int| 0 <= k < out@.len() implies (#[trigger] out@[k]).0 == spec_spawn_search_offset(k).0
            && out@[k].1 == spec_spawn_search_offset(k).1 by {
            if k >= base {
                assert(k / 4 == d - 1) by (nonlinear_arith)
                    requires base == 4 * (d - 1), base <= k < base + 4;
                assert(k % 4 == k - base) by (nonlinear_arith)
                    requires base == 4 * (d - 1), base <= k < base + 4;
            }
        }
        done = d;
    }
    out
}

/// A player object goes by `player`, `player2`, `playerface`, `obj_player`,
/// `obj_player2` or `obj_playerface`, whatever the case of its letters.
pub proof fn law_player_names(name: Seq<char>)
    ensures
        spec_ascii_lower(name) == "player"@ ==> spec_is_preferred_player_name(name),
        spec_ascii_lower(name) == "player2"@ ==> spec_is_preferred_player_name(name),
        spec_ascii_lower(name) == "playerface"@ ==> spec_is_preferred_player_name(name),
        spec_ascii_lower(name) == "obj_player"@ ==> spec_is_preferred_player_name(name),
        spec_ascii_lower(name) == "obj_player2"@ ==> spec_is_preferred_player_name(name),
        spec_ascii_lower(name) == "obj_playerface"@ ==> spec_is_preferred_player_name(name),
        spec_is_preferred_player_name(name) ==> spec_ascii_lower(name) == "player"@ || spec_ascii_lower(name) == "player2"@ || spec_ascii_lower(name) == "playerface"@ || spec_ascii_lower(name) == "obj_player"@ || spec_ascii_lower(name) == "obj_player2"@ || spec_ascii_lower(name) == "obj_playerface"@,
{
}

} // verus!
