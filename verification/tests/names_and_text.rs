use iwm_runtime_core::diagnostics::{
    elapsed_since, is_supported_eval_function, mark_phase_elapsed, nanos_between, statement_kind, trace_message,
    RuntimeExecutionTrace,
};
use iwm_runtime_core::event_dispatch::{
    event_selector_parts, format_key_name, format_selector_key_name, parse_alarm_slot, selector_event_tag,
    RuntimeEventSelector,
};
use iwm_runtime_core::helpers::is_preferred_player_name;
use iwm_runtime_core::lowered::{LoweredLogicExpr, LoweredLogicStatement};
use iwm_runtime_core::model::RuntimeInstance;
use iwm_runtime_core::names::{
    draw_align_arg, gm_key_code, is_view_variable_key, is_view_variable_name, is_whitespace,
    normalize_runtime_sound_key,
};
use iwm_runtime_core::text::{
    eq_ignore_ascii_case, parse_u32_range, push_decimal, push_hex_byte, str_eq, to_ascii_lowercase,
};
use std::collections::HashMap;

fn instance(runtime_id: usize) -> RuntimeInstance<f64> {
    RuntimeInstance {
        runtime_id,
        instance_id: 100,
        object_id: 1,
        object_name: "player".to_string(),
        x: 0.0,
        y: 0.0,
        previous_x: 0.0,
        previous_y: 0.0,
        hspeed: 0.0,
        vspeed: 0.0,
        width: 16,
        height: 16,
        origin_x: 0,
        origin_y: 0,
        bbox_left: 0,
        bbox_right: 15,
        bbox_top: 0,
        bbox_bottom: 15,
        facing_left: false,
        alive: true,
        solid: false,
        hazard: false,
        checkpoint: false,
        player_candidate: true,
        persistent: false,
        visible: true,
        collision_masks: Vec::new(),
        vars: HashMap::new(),
    }
}

#[test]
fn parse_alarm_slot_reads_plain_slots() {
    assert_eq!(parse_alarm_slot("alarm[0]"), Some(0));
    assert_eq!(parse_alarm_slot("alarm[11]"), Some(11));
    assert_eq!(parse_alarm_slot("alarm[+7]"), Some(7));
    assert_eq!(parse_alarm_slot("alarm[007]"), Some(7));
    assert_eq!(parse_alarm_slot("alarm[4294967295]"), Some(u32::MAX));
}

#[test]
fn parse_alarm_slot_rejects_other_keys() {
    assert_eq!(parse_alarm_slot("alarm[]"), None);
    assert_eq!(parse_alarm_slot("alarm[-1]"), None);
    assert_eq!(parse_alarm_slot("alarm[+]"), None);
    assert_eq!(parse_alarm_slot("alarm[4294967296]"), None);
    assert_eq!(parse_alarm_slot("alarm[1a]"), None);
    assert_eq!(parse_alarm_slot("alarm[1"), None);
    assert_eq!(parse_alarm_slot("Alarm[1]"), None);
    assert_eq!(parse_alarm_slot("alarm"), None);
    assert_eq!(parse_alarm_slot(""), None);
}

#[test]
fn alarm_slot_round_trips_through_its_key() {
    for n in [0u32, 1, 9, 10, 99, 12345, u32::MAX] {
        let mut key = "alarm[".to_string();
        push_decimal(&mut key, n as u64);
        key.push(']');
        assert_eq!(parse_alarm_slot(&key), Some(n));
    }
}

#[test]
fn parse_u32_range_reads_a_slice() {
    assert_eq!(parse_u32_range("ab123cd", 2, 5), Some(123));
    assert_eq!(parse_u32_range("ab123cd", 2, 2), None);
    assert_eq!(parse_u32_range("+", 0, 1), None);
}

#[test]
fn key_names_are_lowercase_characters_or_hex() {
    assert_eq!(format_key_name(65), "a");
    assert_eq!(format_key_name(122), "z");
    assert_eq!(format_key_name(48), "0");
    assert_eq!(format_key_name(0x25), "0x25");
    assert_eq!(format_key_name(0x0D), "0x0d");
    assert_eq!(format_key_name(0x1FF), "0xff");
    assert_eq!(format_selector_key_name(75), "k");
    assert_eq!(format_selector_key_name(0x20), "0x20");
}

#[test]
fn selector_parts_and_tags() {
    assert_eq!(event_selector_parts(&RuntimeEventSelector::Step), (3, 0, "step".to_string()));
    assert_eq!(event_selector_parts(&RuntimeEventSelector::Draw), (8, 0, "draw".to_string()));
    assert_eq!(event_selector_parts(&RuntimeEventSelector::Destroy), (1, 0, "destroy".to_string()));
    assert_eq!(event_selector_parts(&RuntimeEventSelector::Alarm(3)), (2, 3, "alarm:3".to_string()));
    assert_eq!(
        event_selector_parts(&RuntimeEventSelector::KeyboardHeld(0x25)),
        (5, 0x25, "keyboard:0x25".to_string())
    );
    assert_eq!(
        event_selector_parts(&RuntimeEventSelector::KeyboardPressed(82)),
        (9, 82, "keypress:r".to_string())
    );
    assert_eq!(
        event_selector_parts(&RuntimeEventSelector::KeyboardReleased(16)),
        (10, 16, "keyrelease:0x10".to_string())
    );
    assert_eq!(
        event_selector_parts(&RuntimeEventSelector::OtherAnimationEnd),
        (7, 7, "other:animation-end".to_string())
    );
    assert_eq!(
        event_selector_parts(&RuntimeEventSelector::Collision { target_object_id: 12 }),
        (4, 12, "collision".to_string())
    );
    assert_eq!(selector_event_tag(&RuntimeEventSelector::Alarm(10)), "alarm:10");
    assert_eq!(selector_event_tag(&RuntimeEventSelector::KeyboardHeld(90)), "keyboard:z");
    assert_eq!(selector_event_tag(&RuntimeEventSelector::Collision { target_object_id: 1 }), "collision");
}

#[test]
fn player_names_ignore_ascii_case() {
    for name in ["player", "Player2", "PLAYERFACE", "obj_player", "obj_Player2", "obj_playerface"] {
        assert!(is_preferred_player_name(name));
    }
    for name in ["player3", "obj_players", "", "objplayer"] {
        assert!(!is_preferred_player_name(name));
    }
}

#[test]
fn view_variable_keys_and_names() {
    assert!(is_view_variable_key("view_xview"));
    assert!(is_view_variable_key("view_hview[0]"));
    assert!(!is_view_variable_key("view_xview[1]"));
    assert!(!is_view_variable_key("VIEW_XVIEW"));
    assert!(is_view_variable_name("view_wview"));
    assert!(!is_view_variable_name("view_wview[0]"));
}

#[test]
fn gm_key_codes() {
    assert_eq!(gm_key_code("vk_left"), Some(0x25));
    assert_eq!(gm_key_code("VK_UP"), Some(0x26));
    assert_eq!(gm_key_code("vk_right"), Some(0x27));
    assert_eq!(gm_key_code("vk_down"), Some(0x28));
    assert_eq!(gm_key_code("vk_shift"), Some(0x10));
    assert_eq!(gm_key_code("vk_space"), Some(0x20));
    assert_eq!(gm_key_code("Vk_Enter"), Some(0x0D));
    assert_eq!(gm_key_code("vk_escape"), Some(0x1B));
    assert_eq!(gm_key_code("vk_control"), Some(0x11));
    assert_eq!(gm_key_code("vk_alt"), Some(0x12));
    assert_eq!(gm_key_code("vk_tab"), None);
}

#[test]
fn draw_alignment_arguments() {
    let left: LoweredLogicExpr<f64> = LoweredLogicExpr::Identifier("fa_left".to_string());
    let center: LoweredLogicExpr<f64> = LoweredLogicExpr::LiteralText("FA_CENTER".to_string());
    let right: LoweredLogicExpr<f64> = LoweredLogicExpr::Identifier("Fa_Right".to_string());
    let other: LoweredLogicExpr<f64> = LoweredLogicExpr::Identifier("fa_top".to_string());
    let number: LoweredLogicExpr<f64> = LoweredLogicExpr::LiteralNumber(0.0);
    assert_eq!(draw_align_arg(&left), Some("left".to_string()));
    assert_eq!(draw_align_arg(&center), Some("center".to_string()));
    assert_eq!(draw_align_arg(&right), Some("right".to_string()));
    assert_eq!(draw_align_arg(&other), None);
    assert_eq!(draw_align_arg(&number), None);
}

#[test]
fn sound_keys_are_normalised() {
    assert_eq!(normalize_runtime_sound_key("  Sounds\\Jump.WAV \n"), "sounds/jump.wav");
    assert_eq!(normalize_runtime_sound_key("./././music/Boss.ogg"), "music/boss.ogg");
    assert_eq!(normalize_runtime_sound_key("///a/b"), "a/b");
    assert_eq!(normalize_runtime_sound_key(".\\x"), "x");
    assert_eq!(normalize_runtime_sound_key("../x"), "../x");
    assert_eq!(normalize_runtime_sound_key("\u{3000}Bgm\u{a0}"), "bgm");
    assert_eq!(normalize_runtime_sound_key(" ./ x"), " x");
    assert_eq!(normalize_runtime_sound_key(""), "");
    assert_eq!(normalize_runtime_sound_key("   "), "");
}

#[test]
fn whitespace_matches_std() {
    for c in ['\t', '\n', '\u{b}', '\u{c}', '\r', ' ', '\u{85}', '\u{a0}', '\u{1680}', '\u{2000}', '\u{200a}',
        '\u{2028}', '\u{2029}', '\u{202f}', '\u{205f}', '\u{3000}', 'a', '\u{200b}', '\u{180e}', '0']
    {
        assert_eq!(is_whitespace(c), c.is_whitespace(), "{:?}", c);
    }
}

#[test]
fn supported_eval_functions() {
    assert!(is_supported_eval_function("room_goto"));
    assert!(is_supported_eval_function("sound_isplaying"));
    assert!(is_supported_eval_function("file_bin_open"));
    assert!(!is_supported_eval_function("instance_create"));
    assert!(!is_supported_eval_function("Room_Goto"));
}

#[test]
fn statement_kinds() {
    let s: LoweredLogicStatement<f64> = LoweredLogicStatement::Raw { source: "x".to_string() };
    assert_eq!(statement_kind(&s), "raw");
    let s: LoweredLogicStatement<f64> = LoweredLogicStatement::VariableDeclaration { names: vec![] };
    assert_eq!(statement_kind(&s), "variable-declaration");
    let s: LoweredLogicStatement<f64> = LoweredLogicStatement::FunctionCall { name: "f".to_string(), args: vec![] };
    assert_eq!(statement_kind(&s), "function-call");
    let s: LoweredLogicStatement<f64> = LoweredLogicStatement::Return { value: None };
    assert_eq!(statement_kind(&s), "return");
}

#[test]
fn trace_message_places_the_instance() {
    let trace = RuntimeExecutionTrace {
        room_id: 3,
        tick: 120,
        block_id: "obj_player:step".to_string(),
        object_name: "obj_player".to_string(),
        event_tag: "step".to_string(),
    };
    assert_eq!(
        trace_message(&trace, &instance(7)),
        "room=3 tick=120 block_id=obj_player:step object=obj_player event_tag=step runtime_id=7"
    );
}

#[test]
fn nanos_between_saturates() {
    assert_eq!(nanos_between(10, 25), 15);
    assert_eq!(nanos_between(25, 10), 0);
    assert_eq!(nanos_between(5, 5), 0);
    assert_eq!(nanos_between(0, u128::from(u64::MAX) + 10), u64::MAX);
    assert_eq!(nanos_between(1, u128::from(u64::MAX) + 1), u64::MAX);
}

#[test]
fn text_helpers() {
    assert!(str_eq("abc", "abc"));
    assert!(!str_eq("abc", "abd"));
    assert!(!str_eq("abc", "ab"));
    assert_eq!(to_ascii_lowercase("AbC-Ä"), "abc-Ä");
    assert!(eq_ignore_ascii_case("HeLLo", "hello"));
    assert!(!eq_ignore_ascii_case("hello", "hell"));
    let mut out = String::new();
    push_decimal(&mut out, 0);
    push_hex_byte(&mut out, 0xab);
    push_decimal(&mut out, 9876543210);
    assert_eq!(out, "0ab9876543210");
}

#[test]
fn phases_are_timed_from_the_last_mark() {
    assert_eq!(elapsed_since(Some(100), Some(250)), 150);
    assert_eq!(elapsed_since(None, Some(250)), 0);
    assert_eq!(elapsed_since(Some(100), None), 0);
    let mut start = Some(10u128);
    assert_eq!(mark_phase_elapsed(&mut start, Some(40)), 30);
    assert_eq!(start, Some(40));
    assert_eq!(mark_phase_elapsed(&mut start, Some(35)), 0);
    assert_eq!(start, Some(35));
    assert_eq!(mark_phase_elapsed(&mut start, None), 0);
    assert_eq!(start, None);
    assert_eq!(mark_phase_elapsed(&mut start, Some(99)), 0);
    assert_eq!(start, None);
}
