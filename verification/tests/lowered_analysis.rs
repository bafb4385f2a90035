use iwm_runtime_core::host_files::{
    deferred_host_bootstrap_script_entry_indices, expr_references_host_file_functions, is_host_file_function,
    statement_references_host_file_functions, statements_reference_host_file_functions,
};
use iwm_runtime_core::model::{RuntimeInstance, RuntimeRoomState};
use std::collections::HashMap;
use iwm_runtime_core::lowered::{
    expr_is_global_jumpbutton, expr_references_jump_queries, statement_references_jump_queries,
    statements_reference_jump_queries, LoweredLogicEntry, LoweredLogicExpr, LoweredLogicStatement,
};
use iwm_runtime_core::{StringHashMap, StringHashSet};

type Expr = LoweredLogicExpr<f64>;
type Stmt = LoweredLogicStatement<f64>;

fn ident(name: &str) -> Expr {
    LoweredLogicExpr::Identifier(name.to_string())
}

fn jumpbutton() -> Expr {
    LoweredLogicExpr::MemberAccess { target: Box::new(ident("global")), member: "jumpbutton".to_string() }
}

fn call(name: &str, args: Vec<Expr>) -> Expr {
    LoweredLogicExpr::Call { name: name.to_string(), args }
}

fn call_statement(name: &str, args: Vec<Expr>) -> Stmt {
    LoweredLogicStatement::FunctionCall { name: name.to_string(), args }
}

fn scripts(entries: Vec<(&str, Vec<Stmt>)>) -> StringHashMap<LoweredLogicEntry<f64>> {
    let mut map = StringHashMap::new();
    for (name, statements) in entries {
        map.insert(name.to_string(), LoweredLogicEntry { block_id: name.to_string(), statements });
    }
    map
}

#[test]
fn global_jumpbutton_is_recognised_exactly() {
    assert!(expr_is_global_jumpbutton(&jumpbutton()));
    let other = LoweredLogicExpr::MemberAccess { target: Box::new(ident("self")), member: "jumpbutton".to_string() };
    assert!(!expr_is_global_jumpbutton(&other));
    assert!(!expr_is_global_jumpbutton(&ident("jumpbutton")));
}

#[test]
fn jump_queries_are_keyboard_checks_of_the_jump_button() {
    let query = call("keyboard_check_pressed", vec![jumpbutton()]);
    assert!(expr_references_jump_queries(&query));
    let other_key = call("keyboard_check", vec![ident("vk_left")]);
    assert!(!expr_references_jump_queries(&other_key));
    let nested = LoweredLogicExpr::UnaryExpr { op: "!".to_string(), child: Box::new(query) };
    assert!(expr_references_jump_queries(&nested));
    let not_keyboard = call("abs", vec![jumpbutton()]);
    assert!(!expr_references_jump_queries(&not_keyboard));
}

#[test]
fn statements_referencing_jump_queries() {
    let statement = call_statement("keyboard_check_released", vec![jumpbutton()]);
    assert!(statement_references_jump_queries(&statement));
    let cond = LoweredLogicStatement::Conditional {
        condition: ident("x"),
        then_branch: vec![],
        else_branch: vec![LoweredLogicStatement::Assignment {
            target: ident("y"),
            value: call("keyboard_check_direct", vec![jumpbutton()]),
        }],
    };
    assert!(statement_references_jump_queries(&cond));
    let plain: Stmt = LoweredLogicStatement::Raw { source: "x".to_string() };
    assert!(!statement_references_jump_queries(&plain));
    assert!(statements_reference_jump_queries(&vec![plain, cond]));
    assert!(!statements_reference_jump_queries(&Vec::<Stmt>::new()));
}

#[test]
fn host_file_functions() {
    for name in ["file_exists", "file_bin_open", "file_bin_read_byte", "file_bin_write_byte", "file_bin_close", "file_delete"] {
        assert!(is_host_file_function(name));
    }
    assert!(!is_host_file_function("file_text_open_read"));
}

#[test]
fn host_file_calls_are_found_through_scripts() {
    let entries = scripts(vec![
        ("scr_save", vec![call_statement("file_bin_open", vec![])]),
        ("scr_wrapper", vec![call_statement("scr_save", vec![])]),
        ("scr_loop", vec![call_statement("scr_loop", vec![])]),
    ]);
    let mut seen = StringHashSet::new();
    let direct = call("file_exists", vec![]);
    assert!(expr_references_host_file_functions(&direct, &entries, &mut seen));

    let mut seen = StringHashSet::new();
    let via = call_statement("scr_wrapper", vec![]);
    assert!(statement_references_host_file_functions(&via, &entries, &mut seen));
    assert!(seen.contains("scr_wrapper"));

    let mut seen = StringHashSet::new();
    let looping = call_statement("scr_loop", vec![]);
    assert!(!statement_references_host_file_functions(&looping, &entries, &mut seen));

    let mut seen = StringHashSet::new();
    seen.insert("scr_save".to_string());
    assert!(!statements_reference_host_file_functions(&vec![call_statement("scr_save", vec![])], &entries, &mut seen));

    let mut seen = StringHashSet::new();
    let in_arg = LoweredLogicStatement::Assignment {
        target: ident("x"),
        value: LoweredLogicExpr::BinaryExpr {
            op: "+".to_string(),
            left: Box::new(LoweredLogicExpr::LiteralNumber(1.0)),
            right: Box::new(call("scr_save", vec![])),
        },
    };
    assert!(statement_references_host_file_functions(&in_arg, &entries, &mut seen));
}

fn instance(object_id: usize, alive: bool) -> RuntimeInstance<f64> {
    RuntimeInstance {
        runtime_id: 0,
        instance_id: 0,
        object_id,
        object_name: String::new(),
        x: 0.0,
        y: 0.0,
        previous_x: 0.0,
        previous_y: 0.0,
        hspeed: 0.0,
        vspeed: 0.0,
        width: 1,
        height: 1,
        origin_x: 0,
        origin_y: 0,
        bbox_left: 0,
        bbox_right: 0,
        bbox_top: 0,
        bbox_bottom: 0,
        facing_left: false,
        alive,
        solid: false,
        hazard: false,
        checkpoint: false,
        player_candidate: false,
        persistent: false,
        visible: true,
        collision_masks: Vec::new(),
        vars: HashMap::new(),
    }
}

#[test]
fn creation_calls_reaching_files_are_deferred() {
    let entries = scripts(vec![
        ("scr_load", vec![call_statement("file_bin_open", vec![])]),
        ("scr_plain", vec![call_statement("abs", vec![])]),
        ("scr_unindexed", vec![call_statement("file_exists", vec![])]),
    ]);
    let mut index = StringHashMap::new();
    index.insert("scr_load".to_string(), 40usize);
    index.insert("scr_plain".to_string(), 41usize);
    let mut creates: HashMap<usize, Vec<LoweredLogicEntry<f64>>> = HashMap::new();
    creates.insert(
        7,
        vec![LoweredLogicEntry {
            block_id: "obj7:create".to_string(),
            statements: vec![
                call_statement("scr_load", vec![]),
                call_statement("scr_plain", vec![]),
                call_statement("scr_unindexed", vec![]),
                call_statement("scr_load", vec![]),
            ],
        }],
    );
    let room = RuntimeRoomState {
        room_id: 0,
        room_name: "r".to_string(),
        width: 1,
        height: 1,
        speed: 30,
        playable: true,
        spawn_point: None,
        views_enabled: false,
        views: Vec::new(),
        instances: vec![instance(7, true), instance(8, true), instance(7, false), instance(7, true)],
    };
    let calls = deferred_host_bootstrap_script_entry_indices(Some(&room), &creates, &entries, &index);
    assert_eq!(calls, vec![(0, 40), (3, 40)]);
    assert!(deferred_host_bootstrap_script_entry_indices::<f64>(None, &creates, &entries, &index).is_empty());
}
