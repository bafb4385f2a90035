//! The collision metrics an object's instances get from its sprites.

use vstd::prelude::*;

use crate::model::{ObjectDefinition, SpriteResource};

verus! {

/// The size, origin and bounding box an instance collides with.
#[derive(Clone, Copy, Debug, PartialEq, Eq)]
pub struct RuntimeSpriteMetrics {
    pub width: i32,
    pub height: i32,
    pub origin_x: i32,
    pub origin_y: i32,
    pub bbox_left: i32,
    pub bbox_right: i32,
    pub bbox_top: i32,
    pub bbox_bottom: i32,
}

/// The metrics of an object without a sprite: a 16 by 16 box at its origin.
pub open spec fn spec_default_metrics() -> RuntimeSpriteMetrics {
    RuntimeSpriteMetrics {
        width: 16,
        height: 16,
        origin_x: 0,
        origin_y: 0,
        bbox_left: 0,
        bbox_right: 15,
        bbox_top: 0,
        bbox_bottom: 15,
    }
}

/// The metrics a sprite gives: its size (each side at least 1), origin and
/// bounding box.
pub open spec fn spec_metrics_of(sprite: SpriteResource) -> RuntimeSpriteMetrics {
    RuntimeSpriteMetrics {
        width: (if sprite.width >= 1 { sprite.width } else { 1 }) as i32,
        height: (if sprite.height >= 1 { sprite.height } else { 1 }) as i32,
        origin_x: sprite.origin_x,
        origin_y: sprite.origin_y,
        bbox_left: sprite.bbox_left as i32,
        bbox_right: sprite.bbox_right as i32,
        bbox_top: sprite.bbox_top as i32,
        bbox_bottom: sprite.bbox_bottom as i32,
    }
}

impl Default for RuntimeSpriteMetrics {
    fn default() -> (r: Self)
        ensures
            r == spec_default_metrics(),
    {
        RuntimeSpriteMetrics {
            width: 16,
            height: 16,
            origin_x: 0,
            origin_y: 0,
            bbox_left: 0,
            bbox_right: 15,
            bbox_top: 0,
            bbox_bottom: 15,
        }
    }
}

impl RuntimeSpriteMetrics {
    /// The metrics `sprite` gives (see [`spec_metrics_of`]).
    pub fn from(sprite: &SpriteResource) -> (r: Self)
        ensures
            r == spec_metrics_of(*sprite),
    {
        let width = if sprite.width >= 1 { sprite.width } else { 1 };
        let height = if sprite.height >= 1 { sprite.height } else { 1 };
        RuntimeSpriteMetrics {
            width: width as i32,
            height: height as i32,
            origin_x: sprite.origin_x,
            origin_y: sprite.origin_y,
            bbox_left: sprite.bbox_left as i32,
            bbox_right: sprite.bbox_right as i32,
            bbox_top: sprite.bbox_top as i32,
            bbox_bottom: sprite.bbox_bottom as i32,
        }
    }
}

/// Position of the first sprite with id `id` at or after `start`.
pub open spec fn spec_sprite_from(sprites: Seq<SpriteResource>, id: usize, start: int) -> Option<SpriteResource>
    decreases sprites.len() - start,
{
    if start < 0 || start >= sprites.len() {
        None
    } else if sprites[start].id == id {
        Some(sprites[start])
    } else {
        spec_sprite_from(sprites, id, start + 1)
    }
}

/// The first sprite with index `sprite_index`; none for a negative index.
pub open spec fn spec_sprite_for_index(sprites: Seq<SpriteResource>, sprite_index: i32) -> Option<SpriteResource> {
    if sprite_index < 0 {
        None
    } else {
        spec_sprite_from(sprites, sprite_index as usize, 0)
    }
}

/// The first sprite with index `sprite_index`, if any.
pub fn sprite_for_index(sprites: &Vec<SpriteResource>, sprite_index: i32) -> (r: Option<SpriteResource>)
    ensures
        r == spec_sprite_for_index(sprites@, sprite_index),
{
    if sprite_index < 0 {
        return None;
    }
    let id = sprite_index as usize;
    let mut i: usize = 0;
    while i < sprites.len()
        invariant
            i <= sprites@.len(),
            id == sprite_index as usize,
            sprite_index >= 0,
            spec_sprite_from(sprites@, id, 0) == spec_sprite_from(sprites@, id, i as int),
        decreases sprites@.len() - i,
    {
        if sprites[i].id == id {
            return Some(sprites[i]);
        }
        i = i + 1;
    }
    None
}

/// The metrics an object's instances collide with: those of its mask sprite,
/// or, where it names no mask, of its sprite; the default where neither is
/// found.
pub open spec fn spec_sprite_metrics(sprites: Seq<SpriteResource>, object: ObjectDefinition) -> RuntimeSpriteMetrics {
    let sprite = match spec_sprite_for_index(sprites, object.mask_index) {
        Some(s) => Some(s),
        None => if object.mask_index < 0 {
            spec_sprite_for_index(sprites, object.sprite_index)
        } else {
            None
        },
    };
    match sprite {
        Some(s) => spec_metrics_of(s),
        None => spec_default_metrics(),
    }
}

/// The metrics `object`'s instances collide with (see
/// [`spec_sprite_metrics`]).
pub fn sprite_metrics(sprites: &Vec<SpriteResource>, object: &ObjectDefinition) -> (r: RuntimeSpriteMetrics)
    ensures
        r == spec_sprite_metrics(sprites@, *object),
{
    let sprite = match sprite_for_index(sprites, object.mask_index) {
        Some(s) => Some(s),
        None => if object.mask_index < 0 {
            sprite_for_index(sprites, object.sprite_index)
        } else {
            None
        },
    };
    match sprite {
        Some(s) => RuntimeSpriteMetrics::from(&s),
        None => RuntimeSpriteMetrics::default(),
    }
}

} // verus!
