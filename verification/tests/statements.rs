use iwm_runtime_core::frame::{RuntimeDrawCommand, RuntimeDrawContext};
use iwm_runtime_core::lowered::{LoweredLogicExpr, LoweredLogicStatement};
use iwm_runtime_core::render::Rgba8;
use iwm_runtime_core::statements::{
    block_runs, builtin_call, create_statement_action, next_for_step, repeat_runs, statement_action, with_target_action, BuiltinCall, CreateStatementAction, ForAction,
    ForStage, StatementAction, WithTargetAction,
};
use iwm_runtime_core::StringHashMap;

fn call(name: &str) -> LoweredLogicStatement<f64> {
    LoweredLogicStatement::FunctionCall { name: name.to_string(), args: Vec::new() }
}

#[test]
fn statements_map_to_their_actions() {
    let mut scripts: StringHashMap<usize> = StringHashMap::new();
    scripts.insert("scr_move".to_string(), 0);
    let cond: LoweredLogicStatement<f64> = LoweredLogicStatement::Conditional {
        condition: LoweredLogicExpr::LiteralBool(true),
        then_branch: Vec::new(),
        else_branch: Vec::new(),
    };
    assert_eq!(statement_action(&cond, Some(true), 0, &scripts), StatementAction::RunBranch { then_branch: true });
    assert_eq!(statement_action(&cond, None, 0, &scripts), StatementAction::RunBranch { then_branch: false });
    assert_eq!(
        statement_action(&call("game_restart"), None, 0, &scripts),
        StatementAction::Builtin { call: BuiltinCall::GameRestart }
    );
    assert_eq!(statement_action(&call("scr_move"), None, 0, &scripts), StatementAction::CallScript);
    assert_eq!(statement_action(&call("mystery"), None, 0, &scripts), StatementAction::UnsupportedFunction);
    let repeat = LoweredLogicStatement::Repeat { count: LoweredLogicExpr::LiteralNumber(3.0), body: Vec::new() };
    assert_eq!(statement_action(&repeat, None, 3, &scripts), StatementAction::Repeat { times: 3, warn: false });
    assert_eq!(statement_action(&repeat, None, 20_000, &scripts), StatementAction::Repeat { times: 10_000, warn: true });
    let raw: LoweredLogicStatement<f64> = LoweredLogicStatement::Raw { source: "exit".to_string() };
    assert_eq!(statement_action(&raw, None, 0, &scripts), StatementAction::UnsupportedStatement);
    assert_eq!(builtin_call("instance_create"), Some(BuiltinCall::InstanceCreate));
    assert_eq!(builtin_call("Instance_Create"), None);
}

#[test]
fn blocks_and_repeats_stop_after_a_scene_change() {
    assert!(block_runs(0, 2, true, true));
    assert!(!block_runs(1, 2, true, true));
    assert!(block_runs(1, 2, true, false));
    assert!(!block_runs(2, 2, false, true));
    assert!(repeat_runs(0, 3, true));
    assert!(!repeat_runs(1, 3, true));
    assert!(!repeat_runs(3, 3, false));
}

#[test]
fn for_loops_check_then_run_then_step() {
    let (s, a) = next_for_step(ForStage::Start, false, false);
    assert_eq!(a, ForAction::RunInit);
    let (s, a) = next_for_step(s, false, false);
    assert_eq!(a, ForAction::EvaluateCondition);
    let (s, a) = next_for_step(s, true, false);
    assert_eq!(a, ForAction::RunBody);
    let (s, a) = next_for_step(s, true, false);
    assert_eq!(a, ForAction::RunStep);
    let (s, a) = next_for_step(s, true, false);
    assert_eq!((s, a), (ForStage::AfterCondition { iterations: 1 }, ForAction::EvaluateCondition));
    let (_, a) = next_for_step(s, false, false);
    assert_eq!(a, ForAction::Done);
    assert_eq!(next_for_step(ForStage::AfterStep { iterations: 9_999 }, true, false).1, ForAction::WarnLimit);
    assert_eq!(next_for_step(ForStage::AfterBody { iterations: 0 }, true, true).1, ForAction::Done);
}

#[test]
fn with_targets_run_on_self_skip_the_dead_and_stop_on_scene_changes() {
    assert_eq!(with_target_action(0, 4, 4, true, true, true), WithTargetAction::RunOnSelf);
    assert_eq!(with_target_action(1, 2, 4, true, false, false), WithTargetAction::Skip);
    assert_eq!(with_target_action(1, 2, 4, false, true, false), WithTargetAction::Skip);
    assert_eq!(with_target_action(1, 2, 4, true, true, false), WithTargetAction::RunOnTarget);
    assert_eq!(with_target_action(2, 2, 4, true, true, true), WithTargetAction::Stop);
}

#[test]
fn creation_code_runs_loop_bodies_once_and_calls_only_scripts() {
    let mut scripts: StringHashMap<usize> = StringHashMap::new();
    scripts.insert("scr_init".to_string(), 0);
    let with: LoweredLogicStatement<f64> =
        LoweredLogicStatement::With { target: LoweredLogicExpr::Identifier("all".to_string()), body: Vec::new() };
    assert_eq!(create_statement_action(&with, None, &scripts), CreateStatementAction::RunBodyOnce);
    assert_eq!(create_statement_action(&call("instance_destroy"), None, &scripts), CreateStatementAction::Destroy);
    assert_eq!(create_statement_action(&call("instance_create"), None, &scripts), CreateStatementAction::CreateInstance);
    assert_eq!(create_statement_action(&call("scr_init"), None, &scripts), CreateStatementAction::RunScript);
    assert_eq!(create_statement_action(&call("sound_play"), None, &scripts), CreateStatementAction::Skip);
    let ret: LoweredLogicStatement<f64> = LoweredLogicStatement::Return { value: None };
    assert_eq!(create_statement_action(&ret, None, &scripts), CreateStatementAction::Skip);
}

#[test]
fn draw_text_uses_the_current_drawing_state() {
    let mut draw: RuntimeDrawContext<f64> = RuntimeDrawContext::new();
    draw.set_colour(Rgba8 { r: 1, g: 2, b: 3, a: 255 });
    draw.set_align("center".to_string());
    draw.set_font(Some("Arial".to_string()), 12, true, false);
    draw.draw_text("hi".to_string(), 5, 6);
    let commands = draw.finish();
    assert_eq!(commands.len(), 1);
    match &commands[0] {
        RuntimeDrawCommand::DrawText { text, x, y, size, font_name, font_bold, font_italic, colour, align } => {
            assert_eq!((text.as_str(), *x, *y, *size), ("hi", 5, 6, 12));
            assert_eq!(font_name.as_deref(), Some("Arial"));
            assert!(*font_bold && !*font_italic);
            assert_eq!(*colour, Rgba8 { r: 1, g: 2, b: 3, a: 255 });
            assert_eq!(align, "center");
        }
        _ => panic!("expected text"),
    }
}
