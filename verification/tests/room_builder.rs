use iwm_runtime_core::model::{ObjectDefinition, SpriteResource};
use iwm_runtime_core::room_builder::{sprite_for_index, sprite_metrics, RuntimeSpriteMetrics};

fn sprite(id: usize, width: u32, bbox_right: u32) -> SpriteResource {
    SpriteResource {
        id,
        width,
        height: 0,
        origin_x: 3,
        origin_y: -2,
        bbox_left: 1,
        bbox_right,
        bbox_top: 2,
        bbox_bottom: 9,
    }
}

fn object(sprite_index: i32, mask_index: i32) -> ObjectDefinition {
    ObjectDefinition {
        id: 0,
        name: "o".to_string(),
        parent_index: -1,
        solid: false,
        is_player: false,
        is_hazard: None,
        is_checkpoint: None,
        sprite_index,
        mask_index,
        depth: 0,
        events: Vec::new(),
    }
}

#[test]
fn metrics_default_to_a_16_pixel_box() {
    let m = RuntimeSpriteMetrics::default();
    assert_eq!((m.width, m.height, m.bbox_right, m.bbox_bottom), (16, 16, 15, 15));
    assert_eq!(sprite_metrics(&Vec::new(), &object(-1, -1)), m);
}

#[test]
fn metrics_come_from_the_mask_then_the_sprite() {
    let sprites = vec![sprite(0, 32, 30), sprite(5, 8, 7), sprite(5, 99, 98)];
    assert_eq!(sprite_for_index(&sprites, 5).map(|s| s.width), Some(8));
    assert_eq!(sprite_for_index(&sprites, -1), None);
    assert_eq!(sprite_for_index(&sprites, 9), None);
    let m = sprite_metrics(&sprites, &object(0, 5));
    assert_eq!((m.width, m.height, m.origin_x, m.origin_y, m.bbox_left, m.bbox_right), (8, 1, 3, -2, 1, 7));
    let m = sprite_metrics(&sprites, &object(0, -1));
    assert_eq!(m.width, 32);
    // A mask that names a missing sprite gives the default, not the sprite's metrics.
    assert_eq!(sprite_metrics(&sprites, &object(0, 7)), RuntimeSpriteMetrics::default());
    let from = RuntimeSpriteMetrics::from(&sprite(1, 0, 4));
    assert_eq!((from.width, from.height), (1, 1));
}
